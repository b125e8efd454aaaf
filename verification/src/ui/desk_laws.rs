//! What holds of the window: what it starts, with what, and what every control does.
use vstd::prelude::*;

verus! {

use crate::args::OptionsView;
use crate::audio::Direction;
use crate::discovery::FoundView;
use crate::engine::{text_of, MicConfigView, ServerConfigView};
use crate::text::{decimal, law_decimal_round_trip, number_within, trimmed};
use crate::ui::desk::{
    port_in, Desk, DeskView, Field, Panel, SliderId, Start, StartView, Todo,
};
use crate::ui::widgets::DragPhase;

/// A field holds a port exactly where it spells a number from one to 65535, spaces around
/// it aside.
pub proof fn law_a_port_is_one_to_65535(raw: Seq<char>, port: nat)
    ensures
        port_in(raw) is Some <==> number_within(trimmed(raw), true, 1, 65535) is Some,
        port_in(raw) matches Some(p) ==> number_within(trimmed(raw), true, 1, 65535) == Some(
            p as int,
        ) && 1 <= p,
        1 <= port <= 65535 && trimmed(raw) == decimal(port) ==> port_in(raw) == Some(port as u16),
{
    law_decimal_round_trip(port);
}

/// The microphone's button. Stopping stops the microphone and nothing else. Starting asks
/// for a microphone exactly where there is an address and a port, and stops a mixer that
/// is live first; what is started has the address and the port that are typed in, and the
/// device and the packet size last chosen. Whatever happens, no setting changes.
#[verifier::spinoff_prover]
#[verifier::rlimit(40)]
pub proof fn law_the_microphone_starts_as_it_was_set_up(d: DeskView)
    requires
        d.wf(),
    ensures
        ({
            let (todo, after) = d.toggle_mic();
            let host = trimmed(d.values[2]);
            let port = number_within(trimmed(d.values[3]), true, 1, 65535);
            let starts = !d.mic_live && host.len() > 0 && port is Some;
            &&& starts <==> !(todo.start is Nothing)
            &&& !(todo.start is Server)
            &&& todo.start matches StartView::Mic(c) ==> {
                &&& c.host == host
                &&& port == Some(c.port as int)
                &&& c.device == d.options.mic.device
                &&& c.frames_per_packet == d.options.mic.frames_per_packet
            }
            &&& todo.stop_mic == d.mic_live
            &&& todo.stop_server == (!d.mic_live && d.server_live)
            &&& !after.mic_live
            &&& after.server_live == (d.mic_live && d.server_live)
            &&& after == (DeskView {
                mic_live: after.mic_live,
                server_live: after.server_live,
                error: after.error,
                ..d
            })
            &&& d.mic_live ==> after.error == d.error
            &&& starts ==> after.error is None
            &&& !d.mic_live && !starts ==> after.error is Some
            &&& !d.mic_live && host.len() == 0 ==> after.error == Some(
                "no server address: find one, or type it in"@,
            )
        }),
{
    law_a_port_is_one_to_65535(d.values[3], 1);
}

/// The mixer's button, likewise: what is started has the port that is typed in, the name
/// that is typed in or else the one it had, and everything else as it was set up.
#[verifier::spinoff_prover]
#[verifier::rlimit(40)]
pub proof fn law_the_mixer_starts_as_it_was_set_up(d: DeskView)
    requires
        d.wf(),
    ensures
        ({
            let (todo, after) = d.toggle_server();
            let name = trimmed(d.values[1]);
            let port = number_within(trimmed(d.values[0]), true, 1, 65535);
            let starts = !d.server_live && port is Some;
            &&& starts <==> !(todo.start is Nothing)
            &&& !(todo.start is Mic)
            &&& todo.start matches StartView::Server(c) ==> {
                &&& port == Some(c.port as int)
                &&& name.len() > 0 ==> c.name == name
                &&& name.len() == 0 ==> c.name == d.options.server.name
                &&& c.device == d.options.server.device
                &&& c.jitter_ms == d.options.server.jitter_ms
                &&& c.block_frames == d.options.server.block_frames
                &&& c.discovery == d.options.server.discovery
                &&& c.discovery_port == d.options.server.discovery_port
            }
            &&& todo.stop_server == d.server_live
            &&& todo.stop_mic == (!d.server_live && d.mic_live)
            &&& !after.server_live
            &&& after.mic_live == (d.server_live && d.mic_live)
            &&& after == (DeskView {
                mic_live: after.mic_live,
                server_live: after.server_live,
                error: after.error,
                ..d
            })
            &&& d.server_live ==> after.error == d.error
            &&& starts ==> after.error is None
            &&& !d.server_live && !starts ==> after.error is Some
        }),
{
    law_a_port_is_one_to_65535(d.values[0], 1);
}

/// A device picked from a menu is the one the next start is on, and picking it changes
/// nothing else: neither the other menu nor any other setting.
#[verifier::spinoff_prover]
#[verifier::rlimit(40)]
pub proof fn law_the_device_picked_is_the_device_started_on(
    d: DeskView,
    direction: Direction,
    name: Seq<char>,
)
    requires
        d.wf(),
    ensures
        ({
            let picked = d.chosen(direction, name);
            &&& direction is Input ==> picked.options.mic.device == Some(name)
                && picked.options.server == d.options.server
            &&& direction is Output ==> picked.options.server.device == Some(name)
                && picked.options.mic == d.options.mic
            &&& direction is Input ==> (picked.toggle_mic().0.start matches StartView::Mic(c)
                ==> c.device == Some(name))
            &&& direction is Output ==> (picked.toggle_server().0.start matches StartView::Server(c)
                ==> c.device == Some(name))
            &&& direction is Input ==> picked.toggle_server().0 == d.toggle_server().0
            &&& direction is Output ==> picked.toggle_mic().0 == d.toggle_mic().0
            &&& picked.options.mode == d.options.mode
            &&& picked.options.mic.host == d.options.mic.host
            &&& picked.options.mic.port == d.options.mic.port
            &&& picked.options.mic.frames_per_packet == d.options.mic.frames_per_packet
            &&& picked.options.server.name == d.options.server.name
            &&& picked.options.server.port == d.options.server.port
            &&& picked.options.server.jitter_ms == d.options.server.jitter_ms
            &&& picked.options.server.block_frames == d.options.server.block_frames
            &&& picked.options.server.discovery == d.options.server.discovery
            &&& picked.options.server.discovery_port == d.options.server.discovery_port
            &&& picked == (DeskView { options: picked.options, ..d })
        }),
{
}

/// The jitter target moves by what it is nudged by, within five and two hundred
/// milliseconds, and the packet size moves on to the next larger one on offer - 120, 240,
/// 480 or 960 frames - and from the largest back to the smallest; the next start has
/// either. Nothing else moves.
pub proof fn law_a_next_start_setting_reaches_the_next_start(d: DeskView, delta: int)
    requires
        d.wf(),
    ensures
        ({
            let nudged = d.nudged(delta);
            let ms = nudged.options.server.jitter_ms;
            &&& 5 <= ms <= 200
            &&& 5 <= d.options.server.jitter_ms + delta <= 200 ==> ms
                == d.options.server.jitter_ms + delta
            &&& d.options.server.jitter_ms + delta < 5 ==> ms == 5
            &&& d.options.server.jitter_ms + delta > 200 ==> ms == 200
            &&& nudged.options.server == (ServerConfigView { jitter_ms: ms, ..d.options.server })
            &&& nudged.options.mic == d.options.mic
            &&& nudged.options.mode == d.options.mode
            &&& nudged == (DeskView { options: nudged.options, ..d })
            &&& nudged.toggle_server().0.start matches StartView::Server(c) ==> c.jitter_ms == ms
        }),
        ({
            let moved = d.repacketed();
            let was = d.options.mic.frames_per_packet;
            let now = moved.options.mic.frames_per_packet;
            &&& now == 120 || now == 240 || now == 480 || now == 960
            &&& was < 960 ==> now > was
            &&& was < 960 ==> now == 120 || was >= now / 2
            &&& was >= 960 ==> now == 120
            &&& moved.options.mic == (MicConfigView { frames_per_packet: now, ..d.options.mic })
            &&& moved.options.server == d.options.server
            &&& moved.options.mode == d.options.mode
            &&& moved == (DeskView { options: moved.options, ..d })
            &&& moved.toggle_mic().0.start matches StartView::Mic(c) ==> c.frames_per_packet == now
        }),
{
}

/// A start that worked is live with what it was started with, one that did not says why,
/// and neither moves anything else on the desk: a stop and a start lose no setting.
pub proof fn law_how_a_start_went_is_taken_in(
    d: DeskView,
    server: ServerConfigView,
    mic: MicConfigView,
    why: Seq<char>,
)
    ensures
        ({
            let up = d.server_started(server, None);
            let down = d.server_started(server, Some(why));
            &&& up.server_live
            &&& up.options.server == server
            &&& up.options.mic == d.options.mic
            &&& up.options.mode == d.options.mode
            &&& up == (DeskView { server_live: true, options: up.options, ..d })
            &&& down == (DeskView { error: Some(why), ..d })
        }),
        ({
            let up = d.mic_started(mic, None);
            let down = d.mic_started(mic, Some(why));
            &&& up.mic_live
            &&& up.options.mic == mic
            &&& up.options.server == d.options.server
            &&& up.options.mode == d.options.mode
            &&& up == (DeskView { mic_live: true, options: up.options, ..d })
            &&& down == (DeskView { error: Some(why), ..d })
        }),
{
}

/// The window opens on the mixer, or, with an address to send to, on the microphone; the
/// fields hold what was asked for, nothing is live, every fader is at unity and the
/// frequency shift at five hertz.
pub proof fn law_the_window_opens_as_asked(o: OptionsView)
    ensures
        ({
            let d = DeskView::opened(o);
            &&& d.wf()
            &&& d.options == o
            &&& o.mic.host.len() == 0 <==> d.panel is Mixer
            &&& o.mic.host.len() > 0 <==> d.panel is Microphone
            &&& !d.server_live
            &&& !d.mic_live
            &&& d.error is None
            &&& d.values.len() == 4
            &&& d.values[0] == decimal(o.server.port as nat)
            &&& d.values[1] == o.server.name
            &&& d.values[2] == o.mic.host
            &&& d.values[3] == decimal(o.mic.port as nat)
            &&& d.focused is None
            &&& d.found.len() == 0
            &&& !d.searching
            &&& d.master_gain == 1000
            &&& d.mic_gain == 1000
            &&& d.feedback_shift == 5000
            &&& !d.mic_muted
            &&& d.dragging is None
            &&& d.sources.len() == 0
        }),
        Field::ServerPort.place() == 0,
        Field::ServerName.place() == 1,
        Field::MicHost.place() == 2,
        Field::MicPort.place() == 3,
        Field::ServerPort.numeric() && Field::MicPort.numeric(),
        !Field::ServerName.numeric() && !Field::MicHost.numeric(),
        Field::ServerPort.limit() == 5 && Field::MicPort.limit() == 5,
        Field::ServerName.limit() == 32 && Field::MicHost.limit() == 64,
        Field::ServerPort.hint() == "45678"@ && Field::MicPort.hint() == "45678"@,
        Field::ServerName.hint() == "this machine"@,
        Field::MicHost.hint() == "192.168.1.50"@,
{
}

/// Nothing of the desk, and nothing of what it asks for, is hidden from what is said of
/// them.
pub proof fn law_the_desk_is_shown_whole(d: Desk, t: Todo, i: int)
    ensures
        d@.options == d.options@,
        d@.panel == d.panel,
        d@.server_live == d.server_live,
        d@.mic_live == d.mic_live,
        d@.error == text_of(d.error),
        d@.values.len() == d.fields@.len(),
        0 <= i < d.fields@.len() ==> d@.values[i] == d.fields@[i].value@,
        d@.focused == d.focused,
        d@.found.len() == d.found@.len(),
        0 <= i < d.found@.len() ==> d@.found[i] == d.found@[i]@,
        d@.searching == d.searching,
        d@.master_gain == d.master_gain,
        d@.feedback_shift == d.feedback_shift,
        d@.mic_gain == d.mic_gain,
        d@.mic_muted == d.mic_muted,
        d@.dragging == d.dragging,
        d@.sources == d.sources@,
        t@.stop_server == t.stop_server,
        t@.stop_mic == t.stop_mic,
        t.start is Nothing <==> t@.start is Nothing,
        t.start matches Start::Server(c) ==> t@.start == StartView::Server(c@),
        t.start matches Start::Mic(c) ==> t@.start == StartView::Mic(c@),
{
}

/// A tab shows its panel, and stops what the panel that is left was running, and only
/// that. It asks for nothing to be started and moves no setting.
pub proof fn law_a_tab_stops_what_is_left_behind(d: DeskView, panel: Panel)
    requires
        d.wf(),
    ensures
        ({
            let (todo, after) = d.show(panel);
            let left = d.panel != panel;
            &&& after.panel == panel
            &&& todo.start is Nothing
            &&& todo.stop_server == (left && panel is Microphone && d.server_live)
            &&& todo.stop_mic == (left && panel is Mixer && d.mic_live)
            &&& after.server_live == (d.server_live && !todo.stop_server)
            &&& after.mic_live == (d.mic_live && !todo.stop_mic)
            &&& !left ==> after == d
            &&& left ==> after.focused is None && after.error is None
            &&& after == (DeskView {
                panel,
                server_live: after.server_live,
                mic_live: after.mic_live,
                focused: after.focused,
                error: after.error,
                ..d
            })
        }),
{
}

/// A search goes out on the discovery port, one at a time, and starts with an empty list.
/// What it finds is listed; a single answer is filled in as the address, several are left
/// to choose from, and none is said to be none.
pub proof fn law_a_search_fills_the_address_in(d: DeskView, found: Seq<FoundView>, why: Seq<char>)
    requires
        d.wf(),
    ensures
        ({
            let (port, out) = d.search();
            &&& d.searching ==> port is None && out == d
            &&& !d.searching ==> port == Some(d.options.server.discovery_port)
            &&& !d.searching ==> out.searching && out.error is None && out.found.len() == 0
            &&& out == (DeskView {
                searching: out.searching,
                error: out.error,
                found: out.found,
                ..d
            })
        }),
        ({
            let back = d.searched(found);
            &&& !back.searching
            &&& back.found == found
            &&& found.len() == 1 ==> back.values[2] == found[0].addr
            &&& found.len() != 1 ==> back.values == d.values
            &&& back.values.len() == 4
            &&& back.values[0] == d.values[0]
            &&& back.values[1] == d.values[1]
            &&& back.values[3] == d.values[3]
            &&& found.len() == 0 ==> back.error == Some("no mixer answered; type the address in"@)
            &&& found.len() > 0 ==> back.error == d.error
            &&& back == (DeskView {
                searching: false,
                found,
                values: back.values,
                error: back.error,
                ..d
            })
        }),
        d.search_failed(why) == (DeskView {
            searching: false,
            error: Some("discovery failed: "@ + why),
            ..d
        }),
{
}

/// A slider that is pressed, or dragged by whoever pressed it, is where the pointer puts
/// it, up to its far end - twice unity for a gain, thirty hertz for the shift - and that
/// is what the session is told. It moves its own setting and no other.
#[verifier::spinoff_prover]
#[verifier::rlimit(40)]
pub proof fn law_a_slider_goes_where_it_is_put(d: DeskView, id: SliderId, at: u32)
    requires
        d.wf(),
    ensures
        ({
            let end = if id is FeedbackShift {
                30000
            } else {
                2000
            };
            let to = if at < end {
                at as int
            } else {
                end
            };
            let (told, down) = d.slider_event(id, DragPhase::Down, at);
            let (moved, dragged) = down.slider_event(id, DragPhase::Move, at);
            &&& told matches Some(t) && t == to
            &&& moved matches Some(m) && m == to
            &&& dragged == down
            &&& down.dragging == Some(id)
            &&& id is MasterGain ==> down.master_gain == to
            &&& id is FeedbackShift ==> down.feedback_shift == to
            &&& id is MicGain ==> down.mic_gain == to
            &&& !(id is MasterGain) ==> down.master_gain == d.master_gain
            &&& !(id is FeedbackShift) ==> down.feedback_shift == d.feedback_shift
            &&& !(id is MicGain) ==> down.mic_gain == d.mic_gain
            &&& down == (DeskView {
                master_gain: down.master_gain,
                feedback_shift: down.feedback_shift,
                mic_gain: down.mic_gain,
                dragging: down.dragging,
                ..d
            })
            &&& down.slider_event(id, DragPhase::Up, at) == (
                None::<u32>,
                DeskView { dragging: None, ..down },
            )
            &&& d.dragging != Some(id) ==> d.slider_event(id, DragPhase::Move, at) == (None::<u32>, d)
            &&& d.dragging != Some(id) ==> d.slider_event(id, DragPhase::Up, at) == (None::<u32>, d)
            &&& id.most() == end
        }),
{
}

/// A key goes to the field in focus and to no other; escape gives the focus up and keeps
/// what was typed; enter starts what the panel is for, unless it is live already, and
/// never stops anything that is.
#[verifier::spinoff_prover]
#[verifier::rlimit(40)]
pub proof fn law_a_key_goes_to_the_field_in_focus(
    d: DeskView,
    control: bool,
    platform: bool,
    key: Seq<char>,
    key_char: Option<Seq<char>>,
    other: Field,
)
    requires
        d.wf(),
    ensures
        ({
            let (redraw, todo, after) = d.on_key(control, platform, key, key_char);
            &&& d.focused is None ==> !redraw && after == d
            &&& d.focused is None ==> todo.start is Nothing && !todo.stop_server && !todo.stop_mic
            &&& d.focused is Some && key == "escape"@ ==> redraw && after == (DeskView {
                focused: None,
                ..d
            }) && todo.start is Nothing
            &&& d.focused != Some(other) ==> after.values[other.place()] == d.values[other.place()]
            &&& d.focused is Some && key != "escape"@ ==> {
                let which = d.focused->0;
                let (what, typed) = d.typed(which, control, platform, key, key_char);
                &&& what is Edited ==> redraw && after == typed && todo.start is Nothing
                &&& what is Ignored ==> !redraw && after == d && todo.start is Nothing
                &&& what is Submitted ==> redraw && after.focused is None && after.values == d.values
                &&& what is Submitted && d.panel is Mixer && !d.server_live ==> todo
                    == d.toggle_server().0
                &&& what is Submitted && d.panel is Microphone && !d.mic_live ==> todo
                    == d.toggle_mic().0
                &&& what is Submitted && d.panel is Mixer && d.server_live ==> todo.start is Nothing
                    && !todo.stop_server && !todo.stop_mic && after.server_live
                &&& what is Submitted && d.panel is Microphone && d.mic_live
                    ==> todo.start is Nothing && !todo.stop_server && !todo.stop_mic
                    && after.mic_live
            }
            &&& after.options == d.options
            &&& after.panel == d.panel
            &&& after.master_gain == d.master_gain
            &&& after.mic_gain == d.mic_gain
            &&& after.feedback_shift == d.feedback_shift
        }),
{
}

} // verus!
