//! Audio routing of the replay recorder: which output track each audio
//! source records to, and the names shown for sources and tracks.

use vstd::prelude::*;
use vstd::string::StringExecFns;
use crate::text::{
    chars_of, extend, extend_decimal, extend_str, has_prefix, string_of, strip_prefix_str, trim,
    trim_vec, decimal, is_white, trim_start, trim_end,
};

verus! {

/// Kinds of audio sources the recorder offers.
#[derive(Clone, Copy, Debug, PartialEq, Eq, Structural)]
pub enum AudioSourceKind {
    System,
    Microphone,
    PlaybackDevice,
    Application,
}

/// An audio source the recorder can capture.
#[derive(Debug)]
pub struct AudioSourceCapability {
    pub id: String,
    pub label: String,
    pub kind: AudioSourceKind,
    pub available: bool,
}

/// Which output track a source records to, and the track's name.
#[derive(Debug)]
pub struct AudioRoute {
    pub source_id: String,
    pub track: u8,
    pub track_name: String,
    pub enabled: bool,
}

/// Highest output track.
pub const MAX_TRACK: u8 = 6;

pub open spec fn track_used(routes: Seq<AudioRoute>, t: u8) -> bool {
    exists|i: int| 0 <= i < routes.len() && (#[trigger] routes[i]).track == t
}

/// The first unused track from `t` up to 6, or 6 when all are used.
pub open spec fn first_free(routes: Seq<AudioRoute>, t: int) -> u8
    decreases 7 - t,
{
    if t > 6 || t < 1 {
        6
    } else if !track_used(routes, t as u8) {
        t as u8
    } else {
        first_free(routes, t + 1)
    }
}

/// `next_audio_track`: the lowest of tracks 1 to 6 no route uses, else 6.
pub open spec fn next_track_spec(routes: Seq<AudioRoute>) -> u8 {
    first_free(routes, 1)
}

fn track_used_exec(routes: &Vec<AudioRoute>, t: u8) -> (r: bool)
    ensures
        r == track_used(routes@, t),
{
    for i in 0..routes.len()
        invariant
            forall|j: int| 0 <= j < i ==> (#[trigger] routes@[j]).track != t,
    {
        if routes[i].track == t {
            assert(routes@[i as int].track == t);
            return true;
        }
    }
    false
}

pub fn next_audio_track(routes: &Vec<AudioRoute>) -> (r: u8)
    ensures
        r == next_track_spec(routes@),
        1 <= r <= 6,
        !track_used(routes@, r) || forall|t: u8| 1 <= t <= 6 ==> track_used(routes@, t),
{
    let mut t: u8 = 1;
    while t <= 6
        invariant
            1 <= t <= 7,
            next_track_spec(routes@) == first_free(routes@, t as int),
            forall|u: u8| 1 <= u < t ==> track_used(routes@, u),
        decreases 7 - t,
    {
        if !track_used_exec(routes, t) {
            return t;
        }
        t = t + 1;
    }
    6
}

/// `fallback_audio_route_name`: a name for a route whose source has none.
pub open spec fn fallback_name_spec(source_id: Seq<char>, track: u8) -> Seq<char> {
    if has_prefix(source_id, "application:"@) && trim(
        source_id.skip("application:"@.len() as int),
    ).len() > 0 {
        trim(source_id.skip("application:"@.len() as int))
    } else if has_prefix(source_id, "playback:"@) {
        "Playback device"@
    } else if has_prefix(source_id, "system:"@) {
        "System audio"@
    } else if has_prefix(source_id, "microphone:"@) {
        "Default microphone"@
    } else {
        "Track "@ + decimal(track as nat)
    }
}

pub fn fallback_audio_route_name(source_id: &str, track: u8) -> (r: String)
    ensures
        r@ == fallback_name_spec(source_id@, track),
{
    let v = chars_of(source_id);
    match strip_prefix_str(&v, "application:") {
        Some(selector) => {
            let t = trim_vec(&selector);
            if t.len() > 0 {
                return string_of(&t);
            }
        },
        None => {},
    }
    if crate::text::starts_with_str(&v, "playback:") {
        return String::from_str("Playback device");
    }
    if crate::text::starts_with_str(&v, "system:") {
        return String::from_str("System audio");
    }
    if crate::text::starts_with_str(&v, "microphone:") {
        return String::from_str("Default microphone");
    }
    let mut n = chars_of("Track ");
    extend_decimal(&mut n, track as u128);
    string_of(&n)
}

pub open spec fn has_route(routes: Seq<AudioRoute>, id: Seq<char>) -> bool {
    exists|i: int| 0 <= i < routes.len() && (#[trigger] routes[i]).source_id@ == id
}

/// A source that gets a route by default: available system audio or
/// microphone.
pub open spec fn wants_default_route(s: AudioSourceCapability) -> bool {
    s.available && (s.kind == AudioSourceKind::System || s.kind == AudioSourceKind::Microphone)
}

/// `ensure_default_audio_routes`, source by source: every source that
/// wants a route and has none gets one on the next free track, named after
/// the source and enabled.
pub open spec fn add_default_routes(
    routes: Seq<AudioRoute>,
    sources: Seq<AudioSourceCapability>,
) -> Seq<AudioRoute>
    decreases sources.len(),
{
    if sources.len() == 0 {
        routes
    } else {
        let r = add_default_routes(routes, sources.drop_last());
        let s = sources.last();
        if wants_default_route(s) && !has_route(r, s.id@) {
            r.push(
                AudioRoute {
                    source_id: s.id,
                    track: next_track_spec(r),
                    track_name: s.label,
                    enabled: true,
                },
            )
        } else {
            r
        }
    }
}

fn has_route_exec(routes: &Vec<AudioRoute>, id: &String) -> (r: bool)
    ensures
        r == has_route(routes@, id@),
{
    for i in 0..routes.len()
        invariant
            forall|j: int| 0 <= j < i ==> (#[trigger] routes@[j]).source_id@ != id@,
    {
        if routes[i].source_id == *id {
            assert(routes@[i as int].source_id@ == id@);
            return true;
        }
    }
    false
}

pub fn ensure_default_audio_routes(
    routes: &mut Vec<AudioRoute>,
    sources: &Vec<AudioSourceCapability>,
)
    ensures
        final(routes)@ == add_default_routes(old(routes)@, sources@),
{
    for i in 0..sources.len()
        invariant
            routes@ == add_default_routes(old(routes)@, sources@.take(i as int)),
    {
        assert(sources@.take(i + 1).drop_last() =~= sources@.take(i as int));
        assert(sources@.take(i + 1).last() == sources@[i as int]);
        let s = &sources[i];
        let wants = s.available && (match s.kind {
            AudioSourceKind::System => true,
            AudioSourceKind::Microphone => true,
            _ => false,
        });
        if wants && !has_route_exec(routes, &s.id) {
            let track = next_audio_track(routes);
            routes.push(
                AudioRoute {
                    source_id: s.id.clone(),
                    track,
                    track_name: s.label.clone(),
                    enabled: true,
                },
            );
        }
    }
    assert(sources@.take(sources.len() as int) =~= sources@);
}

/// After the defaults are added, every source that wants a route has one,
/// and the routes that were there come first, unchanged.
pub proof fn lemma_default_routes_complete(
    routes: Seq<AudioRoute>,
    sources: Seq<AudioSourceCapability>,
)
    ensures
        forall|j: int|
            0 <= j < sources.len() && wants_default_route(#[trigger] sources[j]) ==> has_route(
                add_default_routes(routes, sources),
                sources[j].id@,
            ),
        add_default_routes(routes, sources).len() >= routes.len(),
        add_default_routes(routes, sources).take(routes.len() as int) == routes,
    decreases sources.len(),
{
    if sources.len() == 0 {
        assert(routes.take(routes.len() as int) =~= routes);
    } else {
        let d = sources.drop_last();
        lemma_default_routes_complete(routes, d);
        let r = add_default_routes(routes, d);
        let out = add_default_routes(routes, sources);
        let s = sources.last();
        assert forall|k: int| 0 <= k < r.len() implies out[k] == r[k] by {
            if wants_default_route(s) && !has_route(r, s.id@) {
                assert(out[k] == r.push(
                    AudioRoute {
                        source_id: s.id,
                        track: next_track_spec(r),
                        track_name: s.label,
                        enabled: true,
                    },
                )[k]);
            }
        }
        assert forall|j: int|
            0 <= j < sources.len() && wants_default_route(#[trigger] sources[j]) implies has_route(
            out,
            sources[j].id@,
        ) by {
            if j < d.len() {
                assert(d[j] == sources[j]);
                assert(has_route(r, sources[j].id@));
                let i = choose|i: int| 0 <= i < r.len() && (#[trigger] r[i]).source_id@ == sources[j].id@;
                assert(out[i] == r[i]);
            } else {
                if has_route(r, s.id@) {
                    let i = choose|i: int| 0 <= i < r.len() && (#[trigger] r[i]).source_id@ == s.id@;
                    assert(out[i] == r[i]);
                } else {
                    assert(out[r.len() as int].source_id == s.id);
                }
            }
        }
        assert(out.take(routes.len() as int) =~= routes) by {
            assert forall|k: int| 0 <= k < routes.len() implies out[k] == routes[k] by {
                assert(r.take(routes.len() as int)[k] == routes[k]);
            }
        }
    }
}

proof fn lemma_default_routes_present(routes: Seq<AudioRoute>, sources: Seq<AudioSourceCapability>)
    requires
        forall|j: int|
            0 <= j < sources.len() && wants_default_route(#[trigger] sources[j]) ==> has_route(
                routes,
                sources[j].id@,
            ),
    ensures
        add_default_routes(routes, sources) == routes,
    decreases sources.len(),
{
    if sources.len() > 0 {
        let d = sources.drop_last();
        assert forall|j: int| 0 <= j < d.len() && wants_default_route(#[trigger] d[j]) implies has_route(
            routes,
            d[j].id@,
        ) by {
            assert(d[j] == sources[j]);
        }
        lemma_default_routes_present(routes, d);
        assert(sources.last() == sources[sources.len() - 1]);
    }
}

/// Adding the default routes a second time changes nothing.
pub proof fn lemma_default_routes_idempotent(
    routes: Seq<AudioRoute>,
    sources: Seq<AudioSourceCapability>,
)
    ensures
        add_default_routes(add_default_routes(routes, sources), sources) == add_default_routes(
            routes,
            sources,
        ),
{
    lemma_default_routes_complete(routes, sources);
    lemma_default_routes_present(add_default_routes(routes, sources), sources);
}

/// The label of the first source with the given id, if any.
pub open spec fn source_label(sources: Seq<AudioSourceCapability>, id: Seq<char>) -> Option<Seq<char>>
    decreases sources.len(),
{
    if sources.len() == 0 {
        None
    } else if sources[0].id@ == id {
        Some(sources[0].label@)
    } else {
        source_label(sources.drop_first(), id)
    }
}

/// The name a route ends up with: its own unless blank, else its source's
/// label, else the fallback name.
pub open spec fn route_name(r: AudioRoute, sources: Seq<AudioSourceCapability>) -> Seq<char> {
    if trim(r.track_name@).len() > 0 {
        r.track_name@
    } else {
        match source_label(sources, r.source_id@) {
            Some(l) => l,
            None => fallback_name_spec(r.source_id@, r.track),
        }
    }
}

fn source_label_exec(sources: &Vec<AudioSourceCapability>, id: &String) -> (r: Option<String>)
    ensures
        match r {
            Some(l) => source_label(sources@, id@) == Some(l@),
            None => source_label(sources@, id@) is None,
        },
{
    let mut i: usize = 0;
    assert(sources@.skip(0) =~= sources@);
    while i < sources.len()
        invariant
            i <= sources.len(),
            source_label(sources@, id@) == source_label(sources@.skip(i as int), id@),
        decreases sources.len() - i,
    {
        assert(sources@.skip(i as int)[0] == sources@[i as int]);
        assert(sources@.skip(i as int).drop_first() =~= sources@.skip(i + 1));
        if sources[i].id == *id {
            return Some(sources[i].label.clone());
        }
        i = i + 1;
    }
    None
}

/// `ensure_audio_route_names`: routes with a blank name get their source's
/// label or a fallback; everything else about the routes stays.
pub fn ensure_audio_route_names(routes: &mut Vec<AudioRoute>, sources: &Vec<AudioSourceCapability>)
    ensures
        final(routes)@.len() == old(routes)@.len(),
        forall|i: int|
            0 <= i < old(routes)@.len() ==> {
                &&& (#[trigger] final(routes)@[i]).source_id == old(routes)@[i].source_id
                &&& final(routes)@[i].track == old(routes)@[i].track
                &&& final(routes)@[i].enabled == old(routes)@[i].enabled
                &&& final(routes)@[i].track_name@ == route_name(old(routes)@[i], sources@)
            },
{
    let ghost start = routes@;
    let n = routes.len();
    for i in 0..n
        invariant
            n == start.len(),
            routes@.len() == start.len(),
            start == old(routes)@,
            forall|k: int|
                0 <= k < start.len() ==> {
                    &&& (#[trigger] routes@[k]).source_id == start[k].source_id
                    &&& routes@[k].track == start[k].track
                    &&& routes@[k].enabled == start[k].enabled
                    &&& (k < i ==> routes@[k].track_name@ == route_name(start[k], sources@))
                    &&& (k >= i ==> routes@[k].track_name == start[k].track_name)
                },
    {
        let name = trim_vec(&chars_of(routes[i].track_name.as_str()));
        if name.len() == 0 {
            let new_name = match source_label_exec(sources, &routes[i].source_id) {
                Some(l) => l,
                None => fallback_audio_route_name(routes[i].source_id.as_str(), routes[i].track),
            };
            let r = AudioRoute {
                source_id: routes[i].source_id.clone(),
                track: routes[i].track,
                track_name: new_name,
                enabled: routes[i].enabled,
            };
            routes.set(i, r);
        }
    }
}

/// The label a playback device gets when it has none.
pub open spec fn playback_label(id: Seq<char>) -> Seq<char> {
    if has_prefix(id, "playback:"@) && trim(id.skip("playback:"@.len() as int)).len() > 0 {
        "Playback endpoint ("@ + trim(id.skip("playback:"@.len() as int)) + ")"@
    } else {
        "Playback device"@
    }
}

/// The label a source ends up with: a playback device with a blank label
/// gets `playback_label`, everything else keeps its own.
pub open spec fn device_label(s: AudioSourceCapability) -> Seq<char> {
    if s.kind == AudioSourceKind::PlaybackDevice && trim(s.label@).len() == 0 {
        playback_label(s.id@)
    } else {
        s.label@
    }
}

proof fn lemma_trim_keeps_leading(s: Seq<char>)
    requires
        s.len() > 0,
        !is_white(s[0]),
    ensures
        trim(s).len() > 0,
{
    assert(trim_start(s) == s);
    lemma_trim_end_keeps_leading(s);
}

proof fn lemma_trim_end_keeps_leading(s: Seq<char>)
    requires
        s.len() > 0,
        !is_white(s[0]),
    ensures
        trim_end(s).len() > 0,
    decreases s.len(),
{
    if s.len() > 1 && is_white(s.last()) {
        assert(s.drop_last()[0] == s[0]);
        lemma_trim_end_keeps_leading(s.drop_last());
    }
}

/// Labelling playback devices again changes nothing: a label given to a
/// playback device is never blank.
pub proof fn lemma_playback_labels_idempotent(s: AudioSourceCapability, t: AudioSourceCapability)
    requires
        t.id == s.id,
        t.kind == s.kind,
        t.label@ == device_label(s),
    ensures
        device_label(t) == t.label@,
{
    if s.kind == AudioSourceKind::PlaybackDevice && trim(s.label@).len() == 0 {
        reveal_strlit("Playback endpoint (");
        reveal_strlit("Playback device");
        let l = playback_label(s.id@);
        assert(l[0] == 'P');
        lemma_trim_keeps_leading(l);
    }
}

/// `ensure_playback_device_labels`: playback devices with a blank label are
/// named after their endpoint id; everything else stays.
pub fn ensure_playback_device_labels(sources: &mut Vec<AudioSourceCapability>)
    ensures
        final(sources)@.len() == old(sources)@.len(),
        forall|i: int|
            0 <= i < old(sources)@.len() ==> {
                let o = old(sources)@[i];
                let n = #[trigger] final(sources)@[i];
                &&& n.id == o.id
                &&& n.kind == o.kind
                &&& n.available == o.available
                &&& n.label@ == device_label(o)
            },
{
    let ghost start = sources@;
    let n = sources.len();
    for i in 0..n
        invariant
            n == start.len(),
            sources@.len() == start.len(),
            start == old(sources)@,
            forall|k: int|
                0 <= k < start.len() ==> {
                    let o = start[k];
                    let n = #[trigger] sources@[k];
                    &&& n.id == o.id
                    &&& n.kind == o.kind
                    &&& n.available == o.available
                    &&& (k < i ==> n.label@ == device_label(o))
                    &&& (k >= i ==> n.label == o.label)
                },
    {
        let is_playback = match sources[i].kind {
            AudioSourceKind::PlaybackDevice => true,
            _ => false,
        };
        let blank = trim_vec(&chars_of(sources[i].label.as_str())).len() == 0;
        if is_playback && blank {
            let idv = chars_of(sources[i].id.as_str());
            let endpoint = match strip_prefix_str(&idv, "playback:") {
                Some(rest) => trim_vec(&rest),
                None => Vec::new(),
            };
            let label = if endpoint.len() > 0 {
                let mut l = chars_of("Playback endpoint (");
                extend(&mut l, &endpoint);
                extend_str(&mut l, ")");
                string_of(&l)
            } else {
                String::from_str("Playback device")
            };
            let s = AudioSourceCapability {
                id: sources[i].id.clone(),
                label,
                kind: sources[i].kind,
                available: sources[i].available,
            };
            sources.set(i, s);
        }
    }
}

} // verus!
