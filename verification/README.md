# LAN Mic

Wireless microphones over your own Wi-Fi: uncompressed 48 kHz mono over UDP, one
jitter buffer per microphone, one mix out. A machine is a microphone or a mixer,
never both at once.

`src/` is the library, written in Verus: packets, jitter buffers, the source
table, capture accounting, discovery, device and command-line choices, session
start-up, stream supervision, and what the window decides and says. It holds plain
state and plain values, and says of every function of its own what it does. What holds
across several functions is stated in the `*_laws` modules and in the `law_*`
proof functions beside the code they speak of.

`app/` is the program around it: sockets, sound devices, threads, windows, and the
floating-point part of the sound (summing, frequency shift, limiter, sample
conversion). The library's state is plain values, so a session keeps its own behind
one mutex that the audio callback, the network thread and the window share. A callback
never waits for it: it tries a bounded number of times, and then plays a block of
silence, or puts the captured burst aside for its next turn. So a thread that is
descheduled while it holds the mutex can cost a dropout.

`tests/` runs the library on concrete values.

## What is trusted

* `src/ring.rs`: the sample ring is an `rtrb` ring; its wrappers say what each call
  does to the samples that wait.
* `src/text.rs`: `String::push` and `String::pop`, and three results of the
  standard library that are named rather than described (lower case, lossy UTF-8,
  the quoted form).
* `src/util.rs`: the clock, `Instant::elapsed` and `Duration::as_millis`. Nothing is
  claimed of either.
