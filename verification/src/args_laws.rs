//! What holds of a command line as a whole: each flag does its own job, wherever it
//! stands, and none does another's.
use vstd::prelude::*;

verus! {

use crate::args::{
    looks_like_a_flag, parsed, read_from, value_at, word_of, ArgErrorView, Mode, OptionsView, SoFar,
    Word,
};
use crate::text::{number_within, quoted, signed_decimal, trimmed};

/// A flag stands at or behind `i`.
pub open spec fn given(argv: Seq<Seq<char>>, i: int, flag: Seq<char>) -> bool {
    exists|k: int| i <= k < argv.len() && #[trigger] argv[k] == flag
}

/// What stands behind the last of a flag at or behind `i`.
pub open spec fn last_value(argv: Seq<Seq<char>>, i: int, flag: Seq<char>) -> Option<Seq<char>>
    decreases argv.len() - i,
{
    if i < 0 || i >= argv.len() {
        None
    } else {
        match last_value(argv, i + 1, flag) {
            Some(v) => Some(v),
            None => if argv[i] == flag && i + 1 < argv.len() {
                Some(argv[i + 1])
            } else {
                None
            },
        }
    }
}

/// `value`, or `otherwise` where there is none.
pub open spec fn or_else(value: Option<Seq<char>>, otherwise: Seq<char>) -> Seq<char> {
    match value {
        Some(v) => v,
        None => otherwise,
    }
}

/// `n` is the number that `value` spells, within a range, or `otherwise` where there is
/// no value.
pub open spec fn spelt(value: Option<Seq<char>>, signed: bool, min: int, max: int, otherwise: int, n: int) -> bool {
    match value {
        Some(v) => number_within(v, signed, min, max) == Some(n),
        None => n == otherwise,
    }
}

/// Every flag is spelt in its own way, and all but one of them with two dashes.
proof fn lemma_spellings(x: Seq<char>)
    ensures
        word_of(x) is Help <==> x == "-h"@ || x == "--help"@,
        word_of(x) is ListDevices <==> x == "--list-devices"@,
        word_of(x) is Headless <==> x == "--headless"@,
        word_of(x) is NoDiscovery <==> x == "--no-discovery"@,
        word_of(x) is Port <==> x == "--port"@,
        word_of(x) is DiscoveryPort <==> x == "--discovery-port"@,
        word_of(x) is Jitter <==> x == "--jitter"@,
        word_of(x) is Name <==> x == "--name"@,
        word_of(x) is Output <==> x == "--output"@,
        word_of(x) is Input <==> x == "--input"@,
        word_of(x) is BlockSize <==> x == "--blocksize"@,
        word_of(x) is Packet <==> x == "--packet"@,
        word_of(x) is Mic <==> x == "--mic"@,
        !looks_like_a_flag(x) ==> word_of(x) is Help || word_of(x) is Unknown,
{
    reveal_strlit("-h");
    reveal_strlit("--help");
    reveal_strlit("--list-devices");
    reveal_strlit("--headless");
    reveal_strlit("--no-discovery");
    reveal_strlit("--port");
    reveal_strlit("--discovery-port");
    reveal_strlit("--jitter");
    reveal_strlit("--name");
    reveal_strlit("--output");
    reveal_strlit("--input");
    reveal_strlit("--blocksize");
    reveal_strlit("--packet");
    reveal_strlit("--mic");
    assert("-h"@.len() == 2);
    assert("--help"@.len() == 6);
    assert("--list-devices"@.len() == 14);
    assert("--headless"@.len() == 10);
    assert("--no-discovery"@.len() == 14);
    assert("--port"@.len() == 6);
    assert("--discovery-port"@.len() == 16);
    assert("--jitter"@.len() == 8);
    assert("--name"@.len() == 6);
    assert("--output"@.len() == 8);
    assert("--input"@.len() == 7);
    assert("--blocksize"@.len() == 11);
    assert("--packet"@.len() == 8);
    assert("--mic"@.len() == 5);
    assert("--help"@[0] == '-' && "--help"@[1] == '-');
    assert("--list-devices"@[0] == '-' && "--list-devices"@[1] == '-');
    assert("--headless"@[0] == '-' && "--headless"@[1] == '-');
    assert("--no-discovery"@[0] == '-' && "--no-discovery"@[1] == '-');
    assert("--port"@[0] == '-' && "--port"@[1] == '-');
    assert("--discovery-port"@[0] == '-' && "--discovery-port"@[1] == '-');
    assert("--jitter"@[0] == '-' && "--jitter"@[1] == '-');
    assert("--name"@[0] == '-' && "--name"@[1] == '-');
    assert("--output"@[0] == '-' && "--output"@[1] == '-');
    assert("--input"@[0] == '-' && "--input"@[1] == '-');
    assert("--blocksize"@[0] == '-' && "--blocksize"@[1] == '-');
    assert("--packet"@[0] == '-' && "--packet"@[1] == '-');
    assert("--mic"@[0] == '-' && "--mic"@[1] == '-');
    assert("--help"@[2] != "--port"@[2]);
    assert("--help"@[2] != "--name"@[2]);
    assert("--port"@[2] != "--name"@[2]);
    assert("--list-devices"@[2] != "--no-discovery"@[2]);
    assert("--jitter"@[2] != "--output"@[2]);
    assert("--jitter"@[2] != "--packet"@[2]);
    assert("--output"@[2] != "--packet"@[2]);
}

proof fn lemma_one_on(argv: Seq<Seq<char>>, i: int, flag: Seq<char>)
    requires
        0 <= i < argv.len(),
    ensures
        given(argv, i, flag) <==> argv[i] == flag || given(argv, i + 1, flag),
        argv[i] != flag ==> last_value(argv, i, flag) == last_value(argv, i + 1, flag),
{
    if given(argv, i, flag) {
        let k = choose|k: int| i <= k < argv.len() && #[trigger] argv[k] == flag;
        assert(k == i || argv[k] == flag);
    }
    if given(argv, i + 1, flag) {
        let k = choose|k: int| i + 1 <= k < argv.len() && #[trigger] argv[k] == flag;
        assert(argv[k] == flag);
    }
}

/// What `flag` is followed by, past what one flag and its value take up.
proof fn lemma_past(argv: Seq<Seq<char>>, i: int, flag: Seq<char>)
    requires
        0 <= i < argv.len(),
        looks_like_a_flag(flag),
    ensures
        ({
            let word = word_of(argv[i]);
            let value = if word.takes_value() {
                value_at(argv, i + 1)
            } else {
                None
            };
            let next = if value is Some {
                i + 2
            } else {
                i + 1
            };
            &&& given(argv, i, flag) <==> argv[i] == flag || given(argv, next, flag)
            &&& argv[i] != flag ==> last_value(argv, i, flag) == last_value(argv, next, flag)
            &&& argv[i] == flag && value is Some ==> last_value(argv, i, flag) == match last_value(
                argv,
                next,
                flag,
            ) {
                Some(v) => Some(v),
                None => value,
            }
        }),
{
    lemma_one_on(argv, i, flag);
    if i + 1 < argv.len() {
        lemma_one_on(argv, i + 1, flag);
    }
}

/// What the options come to, told by the flags that are still to be read and by what has
/// been read before them.
spec fn comes_to(argv: Seq<Seq<char>>, i: int, so_far: SoFar, fallback_name: Seq<char>, o: OptionsView) -> bool {
    let was = so_far.options;
    let name = or_else(last_value(argv, i, "--name"@), was.server.name);
    let listing = was.mode is ListDevices || given(argv, i, "--list-devices"@);
    let headless = so_far.headless || given(argv, i, "--headless"@);
    &&& o.server.discovery == (was.server.discovery && !given(argv, i, "--no-discovery"@))
    &&& o.server.device == match last_value(argv, i, "--output"@) {
        Some(v) => Some(v),
        None => was.server.device,
    }
    &&& o.mic.device == match last_value(argv, i, "--input"@) {
        Some(v) => Some(v),
        None => was.mic.device,
    }
    &&& o.mic.host == or_else(last_value(argv, i, "--mic"@), was.mic.host)
    &&& o.server.name == if trimmed(name).len() == 0 {
        fallback_name
    } else {
        name
    }
    &&& spelt(
        last_value(argv, i, "--port"@),
        false,
        0,
        65535,
        was.server.port as int,
        o.server.port as int,
    )
    &&& spelt(
        last_value(argv, i, "--port"@),
        false,
        0,
        65535,
        was.mic.port as int,
        o.mic.port as int,
    )
    &&& spelt(
        last_value(argv, i, "--discovery-port"@),
        false,
        0,
        65535,
        was.server.discovery_port as int,
        o.server.discovery_port as int,
    )
    &&& spelt(
        last_value(argv, i, "--jitter"@),
        true,
        -0x8000_0000,
        0x7fff_ffff,
        was.server.jitter_ms as int,
        o.server.jitter_ms as int,
    )
    &&& spelt(
        last_value(argv, i, "--blocksize"@),
        false,
        0,
        0xffff_ffff,
        was.server.block_frames as int,
        o.server.block_frames as int,
    )
    &&& spelt(
        last_value(argv, i, "--packet"@),
        false,
        0,
        0xffff_ffff,
        was.mic.frames_per_packet as int,
        o.mic.frames_per_packet as int,
    )
    &&& o.mode == if listing {
        Mode::ListDevices
    } else if !headless {
        Mode::Window
    } else if o.mic.host.len() == 0 {
        Mode::HeadlessServer
    } else {
        Mode::HeadlessMic
    }
}

/// Nothing more to be read leaves everything as it was.
proof fn lemma_nothing_behind(argv: Seq<Seq<char>>, i: int, flag: Seq<char>)
    requires
        argv.len() <= i,
    ensures
        !given(argv, i, flag),
        last_value(argv, i, flag) is None,
{
}

#[verifier::rlimit(60)]
#[verifier::spinoff_prover]
proof fn lemma_comes_to(argv: Seq<Seq<char>>, i: int, so_far: SoFar, fallback_name: Seq<char>)
    requires
        0 <= i,
        !(so_far.options.mode is Help),
    ensures
        read_from(argv, i, so_far, fallback_name) matches Ok(o) ==> o.mode is Help || comes_to(
            argv,
            i,
            so_far,
            fallback_name,
            o,
        ),
    decreases argv.len() - i,
{
    if i >= argv.len() {
        lemma_nothing_behind(argv, i, "--list-devices"@);
        lemma_nothing_behind(argv, i, "--headless"@);
        lemma_nothing_behind(argv, i, "--no-discovery"@);
        lemma_nothing_behind(argv, i, "--port"@);
        lemma_nothing_behind(argv, i, "--discovery-port"@);
        lemma_nothing_behind(argv, i, "--jitter"@);
        lemma_nothing_behind(argv, i, "--name"@);
        lemma_nothing_behind(argv, i, "--output"@);
        lemma_nothing_behind(argv, i, "--input"@);
        lemma_nothing_behind(argv, i, "--blocksize"@);
        lemma_nothing_behind(argv, i, "--packet"@);
        lemma_nothing_behind(argv, i, "--mic"@);
    } else {
        let word = word_of(argv[i]);
        let value = if word.takes_value() {
            value_at(argv, i + 1)
        } else {
            None
        };
        let next = if value is Some {
            i + 2
        } else {
            i + 1
        };
        lemma_spellings(argv[i]);
        lemma_spellings("--list-devices"@);
        lemma_spellings("--headless"@);
        lemma_spellings("--no-discovery"@);
        lemma_spellings("--port"@);
        lemma_spellings("--discovery-port"@);
        lemma_spellings("--jitter"@);
        lemma_spellings("--name"@);
        lemma_spellings("--output"@);
        lemma_spellings("--input"@);
        lemma_spellings("--blocksize"@);
        lemma_spellings("--packet"@);
        lemma_spellings("--mic"@);
        lemma_past(argv, i, "--list-devices"@);
        lemma_past(argv, i, "--headless"@);
        lemma_past(argv, i, "--no-discovery"@);
        lemma_past(argv, i, "--port"@);
        lemma_past(argv, i, "--discovery-port"@);
        lemma_past(argv, i, "--jitter"@);
        lemma_past(argv, i, "--name"@);
        lemma_past(argv, i, "--output"@);
        lemma_past(argv, i, "--input"@);
        lemma_past(argv, i, "--blocksize"@);
        lemma_past(argv, i, "--packet"@);
        lemma_past(argv, i, "--mic"@);
        match so_far.after(word, argv[i], value) {
            Ok(after) => {
                if !(word is Help) {
                    lemma_comes_to(argv, next, after, fallback_name);
                }
            },
            Err(_) => {},
        }
    }
}

/// Each flag does its own job and no other: of a command line that is accepted, short of
/// a call for help, every option is what the last flag for it says, or the documented
/// default where that flag is not there. So the mixer answers probes unless
/// `--no-discovery` is among the flags, whatever else is; the port moves both ends; and
/// the terminal is taken only when `--headless` asks for it.
pub proof fn law_each_flag_does_its_own_job(argv: Seq<Seq<char>>, fallback_name: Seq<char>)
    ensures
        parsed(argv, fallback_name) matches Ok(o) ==> o.mode is Help || {
            let name = or_else(last_value(argv, 0, "--name"@), fallback_name);
            &&& o.server.discovery == !given(argv, 0, "--no-discovery"@)
            &&& o.server.device == last_value(argv, 0, "--output"@)
            &&& o.mic.device == last_value(argv, 0, "--input"@)
            &&& o.mic.host == or_else(last_value(argv, 0, "--mic"@), Seq::empty())
            &&& o.server.name == if trimmed(name).len() == 0 {
                fallback_name
            } else {
                name
            }
            &&& o.mic.port == o.server.port
            &&& o.server.port != 0
            &&& spelt(
                last_value(argv, 0, "--port"@),
                false,
                0,
                65535,
                45678,
                o.server.port as int,
            )
            &&& spelt(
                last_value(argv, 0, "--discovery-port"@),
                false,
                0,
                65535,
                45679,
                o.server.discovery_port as int,
            )
            &&& spelt(
                last_value(argv, 0, "--jitter"@),
                true,
                -0x8000_0000,
                0x7fff_ffff,
                15,
                o.server.jitter_ms as int,
            )
            &&& spelt(
                last_value(argv, 0, "--blocksize"@),
                false,
                0,
                0xffff_ffff,
                240,
                o.server.block_frames as int,
            )
            &&& spelt(
                last_value(argv, 0, "--packet"@),
                false,
                0,
                0xffff_ffff,
                240,
                o.mic.frames_per_packet as int,
            )
            &&& given(argv, 0, "--list-devices"@) ==> o.mode is ListDevices
            &&& !given(argv, 0, "--list-devices"@) && !given(argv, 0, "--headless"@)
                ==> o.mode is Window
            &&& !given(argv, 0, "--list-devices"@) && given(argv, 0, "--headless"@)
                && o.mic.host.len() == 0 ==> o.mode is HeadlessServer
            &&& !given(argv, 0, "--list-devices"@) && given(argv, 0, "--headless"@)
                && o.mic.host.len() > 0 ==> o.mode is HeadlessMic
        },
{
    let start = SoFar { options: OptionsView::plain(fallback_name), headless: false };
    lemma_comes_to(argv, 0, start, fallback_name);
    crate::args::law_accepted_options_are_usable(argv, fallback_name);
}

/// A call for help is answered with help, whatever stands behind it, and nothing but a
/// call for help is.
pub proof fn law_only_a_call_for_help_gets_help(
    argv: Seq<Seq<char>>,
    rest: Seq<Seq<char>>,
    fallback_name: Seq<char>,
)
    ensures
        argv.len() > 0 && (argv[0] == "-h"@ || argv[0] == "--help"@) ==> (parsed(
            argv + rest,
            fallback_name,
        ) matches Ok(o) && o.mode is Help),
        (parsed(argv, fallback_name) matches Ok(o) && o.mode is Help) ==> given(argv, 0, "-h"@)
            || given(argv, 0, "--help"@),
{
    let start = SoFar { options: OptionsView::plain(fallback_name), headless: false };
    if argv.len() > 0 {
        lemma_spellings(argv[0]);
        assert((argv + rest)[0] == argv[0]);
    }
    lemma_help_is_called_for(argv, 0, start, fallback_name);
}

proof fn lemma_help_is_called_for(
    argv: Seq<Seq<char>>,
    i: int,
    so_far: SoFar,
    fallback_name: Seq<char>,
)
    requires
        0 <= i,
        !(so_far.options.mode is Help),
    ensures
        (read_from(argv, i, so_far, fallback_name) matches Ok(o) && o.mode is Help) ==> given(
            argv,
            0,
            "-h"@,
        ) || given(argv, 0, "--help"@),
    decreases argv.len() - i,
{
    if i < argv.len() {
        let word = word_of(argv[i]);
        let value = if word.takes_value() {
            value_at(argv, i + 1)
        } else {
            None
        };
        lemma_spellings(argv[i]);
        match so_far.after(word, argv[i], value) {
            Ok(after) => {
                if word is Help {
                    assert(argv[i] == "-h"@ || argv[i] == "--help"@);
                } else if value is Some {
                    lemma_help_is_called_for(argv, i + 2, after, fallback_name);
                } else {
                    lemma_help_is_called_for(argv, i + 1, after, fallback_name);
                }
            },
            Err(_) => {},
        }
    }
}

/// A switch or a flag with a value that it can take.
pub open spec fn in_order(flag: Seq<char>, value: Option<Seq<char>>) -> bool {
    let is_text = value is Some && (value->0.len() < 2 || value->0[0] != '-' || value->0[1] != '-');
    ||| flag == "--list-devices"@ && value is None
    ||| flag == "--headless"@ && value is None
    ||| flag == "--no-discovery"@ && value is None
    ||| flag == "--name"@ && is_text
    ||| flag == "--output"@ && is_text
    ||| flag == "--input"@ && is_text
    ||| flag == "--mic"@ && is_text
    ||| flag == "--port"@ && is_text && (number_within(value->0, false, 1, 65535) is Some)
    ||| flag == "--discovery-port"@ && is_text && (number_within(value->0, false, 0, 65535) is Some)
    ||| flag == "--jitter"@ && is_text && (number_within(value->0, true, 5, 200) is Some)
    ||| flag == "--blocksize"@ && is_text && (number_within(value->0, false, 1, 0xffff_ffff) is Some)
    ||| flag == "--packet"@ && is_text && (number_within(value->0, false, 1, 0xffff_ffff) is Some)
}

/// The words of a command line that is made of flags and their values.
pub open spec fn line_of(flags: Seq<(Seq<char>, Option<Seq<char>>)>) -> Seq<Seq<char>>
    decreases flags.len(),
{
    if flags.len() == 0 {
        Seq::empty()
    } else {
        let (flag, value) = flags[0];
        (match value {
            None => seq![flag],
            Some(v) => seq![flag, v],
        }) + line_of(flags.skip(1))
    }
}

#[verifier::spinoff_prover]
#[verifier::rlimit(40)]
proof fn lemma_accepted_from(
    argv: Seq<Seq<char>>,
    i: int,
    so_far: SoFar,
    fallback_name: Seq<char>,
    flags: Seq<(Seq<char>, Option<Seq<char>>)>,
)
    requires
        0 <= i <= argv.len(),
        so_far.options.server.port != 0,
        !(so_far.options.mode is Help),
        argv.skip(i) == line_of(flags),
        forall|k: int| 0 <= k < flags.len() ==> in_order((#[trigger] flags[k]).0, flags[k].1),
    ensures
        read_from(argv, i, so_far, fallback_name) is Ok,
    decreases flags.len(),
{
    if flags.len() == 0 {
        assert(argv.skip(i).len() == 0);
    } else {
        let (flag, value) = flags[0];
        let rest = line_of(flags.skip(1));
        let line = line_of(flags);
        assert(in_order(flags[0].0, flags[0].1));
        lemma_spellings(flag);
        assert(argv.skip(i).len() == argv.len() - i);
        assert(line.len() >= 1 && (value is Some ==> line.len() >= 2));
        assert(line[0] == flag);
        assert(argv[i] == argv.skip(i)[0]);
        let next = if value is Some {
            i + 2
        } else {
            i + 1
        };
        if value is Some {
            assert(line[1] == value->0);
            assert(argv[i + 1] == argv.skip(i)[1]);
        }
        assert(argv.skip(next) =~= argv.skip(i).skip(next - i));
        assert(line.skip(next - i) =~= rest);
        assert forall|k: int| 0 <= k < flags.skip(1).len() implies in_order(
            (#[trigger] flags.skip(1)[k]).0,
            flags.skip(1)[k].1,
        ) by {
            assert(in_order(flags[k + 1].0, flags[k + 1].1));
        }
        let word = word_of(argv[i]);
        let seen = if word.takes_value() {
            value_at(argv, i + 1)
        } else {
            None
        };
        assert(seen == value);
        match so_far.after(word, argv[i], seen) {
            Ok(after) => {
                lemma_accepted_from(argv, next, after, fallback_name, flags.skip(1));
            },
            Err(_) => {
                assert(false);
            },
        }
    }
}

/// A command line is accepted where every flag on it is a known one and is followed by a
/// value that it can take: a text that does not look like a flag, a port, a jitter target
/// of five to two hundred, or a size that is not zero. The order does not matter, nor how
/// often a flag is given.
#[verifier::spinoff_prover]
#[verifier::rlimit(40)]
pub proof fn law_a_line_in_order_is_accepted(
    flags: Seq<(Seq<char>, Option<Seq<char>>)>,
    fallback_name: Seq<char>,
)
    requires
        forall|k: int| 0 <= k < flags.len() ==> in_order((#[trigger] flags[k]).0, flags[k].1),
    ensures
        parsed(line_of(flags), fallback_name) is Ok,
{
    let start = SoFar { options: OptionsView::plain(fallback_name), headless: false };
    let argv = line_of(flags);
    assert(argv.skip(0) =~= argv);
    lemma_accepted_from(argv, 0, start, fallback_name, flags);
}

/// What is wrong with the first wrong argument is what is said: an argument that is no
/// flag, a value that is missing or looks like a flag, one that is no number, a jitter
/// target out of range, a size of zero.
pub proof fn law_a_mistake_is_named(so_far: SoFar, arg: Seq<char>, value: Option<Seq<char>>)
    ensures
        word_of(arg) is Unknown ==> so_far.after(word_of(arg), arg, value) == Err::<
            SoFar,
            ArgErrorView,
        >(ArgErrorView::Unknown(arg)),
        (arg == "--port"@ || arg == "--discovery-port"@ || arg == "--jitter"@ || arg == "--name"@
            || arg == "--output"@ || arg == "--input"@ || arg == "--blocksize"@ || arg
            == "--packet"@ || arg == "--mic"@) && value is None ==> so_far.after(
            word_of(arg),
            arg,
            value,
        ) == Err::<SoFar, ArgErrorView>(ArgErrorView::NeedsValue(word_of(arg))),
        arg == "--jitter"@ && value is Some ==> {
            let n = number_within(value->0, true, -0x8000_0000, 0x7fff_ffff);
            let r = so_far.after(word_of(arg), arg, value);
            &&& n is None ==> r == Err::<SoFar, ArgErrorView>(
                ArgErrorView::NotANumber(Word::Jitter, value->0),
            )
            &&& n is Some && !(5 <= n->0 <= 200) ==> r == Err::<SoFar, ArgErrorView>(
                ArgErrorView::Jitter(n->0 as i32),
            )
            &&& n is Some && 5 <= n->0 <= 200 ==> r is Ok
        },
        (arg == "--blocksize"@ || arg == "--packet"@) && value is Some ==> {
            let n = number_within(value->0, false, 0, 0xffff_ffff);
            let r = so_far.after(word_of(arg), arg, value);
            &&& n is None ==> r == Err::<SoFar, ArgErrorView>(
                ArgErrorView::NotANumber(word_of(arg), value->0),
            )
            &&& n == Some(0int) ==> r == Err::<SoFar, ArgErrorView>(
                ArgErrorView::NotAFrameCount(word_of(arg)),
            )
            &&& n is Some && n->0 > 0 ==> r is Ok
        },
        (arg == "--port"@ || arg == "--discovery-port"@) && value is Some ==> {
            let n = number_within(value->0, false, 0, 65535);
            let r = so_far.after(word_of(arg), arg, value);
            &&& n is None ==> r == Err::<SoFar, ArgErrorView>(
                ArgErrorView::NotANumber(word_of(arg), value->0),
            )
            &&& n is Some ==> r is Ok
        },
{
    lemma_spellings(arg);
}

/// Only an argument that does not start with two dashes is taken for a value; where one
/// that does stands in its place, or none, the value was forgotten.
pub proof fn law_a_flag_is_never_a_value(argv: Seq<Seq<char>>, i: int)
    ensures
        0 <= i < argv.len() && (argv[i].len() < 2 || argv[i][0] != '-' || argv[i][1] != '-')
            ==> value_at(argv, i) == Some(argv[i]),
        0 <= i < argv.len() && argv[i].len() >= 2 && argv[i][0] == '-' && argv[i][1] == '-'
            ==> value_at(argv, i) is None,
        i >= argv.len() ==> value_at(argv, i) is None,
{
}

/// What is said about a mistake names the flag as it is typed, and shows what was typed
/// where that is what was wrong.
pub proof fn law_a_mistake_is_explained(w: Word, raw: Seq<char>, shown: Seq<char>, ms: i32)
    ensures
        ArgErrorView::NeedsValue(w).message_showing(shown) == w.spelling() + " needs a value"@,
        ArgErrorView::NotANumber(w, raw).message_showing(shown) == w.spelling() + ": "@ + shown
            + " is not a number"@,
        ArgErrorView::NotANumber(w, raw).about() == raw,
        ArgErrorView::NotAFrameCount(w).message_showing(shown) == w.spelling()
            + ": 0 is not a frame count"@,
        ArgErrorView::Jitter(ms).message_showing(shown) == "--jitter: "@ + signed_decimal(ms as int)
            + " ms is outside 5..=200"@,
        ArgErrorView::PortZero.message_showing(shown) == "--port: 0 is not a port"@,
        ArgErrorView::Unknown(raw).message_showing(shown) == "unknown argument "@ + shown,
        ArgErrorView::Unknown(raw).about() == raw,
        ArgErrorView::Unknown(raw).message() == "unknown argument "@ + quoted(raw),
{
}

} // verus!
