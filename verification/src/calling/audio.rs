//! Audio devices: which device and which stream settings to use, and cutting
//! samples into frames. Opening devices and resampling are not part of it.
use crate::text;
use std::collections::VecDeque;
use vstd::prelude::*;

verus! {

/// Sample rate of PCMU.
pub const TARGET_RATE: u32 = 8000;

/// The samples of a 20 ms frame at a device's rate.
pub fn frame_device_samples(device_rate: u32) -> (r: usize)
    ensures
        r == device_rate as int * 20 / 1000,
{
    (device_rate as u64 * 20 / 1000) as usize
}

/// A range of stream settings that a device supports.
#[derive(Debug, Clone, Copy, PartialEq, Eq, Structural)]
pub struct ConfigRange {
    /// Samples are 16-bit integers.
    pub is_i16: bool,
    pub channels: u16,
    pub min_rate: u32,
    pub max_rate: u32,
}

/// The stream settings to use: one channel of 16-bit samples.
#[derive(Debug, Clone, Copy, PartialEq, Eq, Structural)]
pub enum ConfigChoice {
    /// The range as it is, at the target rate.
    Exact(usize),
    /// The range at this rate, but one channel.
    Mono(usize, u32),
    /// Settings that no range promises, at this rate.
    Forced(u32),
}

/// True of a range that has just what is wanted.
pub open spec fn is_exact(c: ConfigRange) -> bool {
    c.is_i16 && c.channels == 1 && c.min_rate <= TARGET_RATE <= c.max_rate
}

/// The rate for a range: 48000, 44100, or its highest.
pub open spec fn mono_rate(c: ConfigRange) -> u32 {
    if c.min_rate <= 48000 <= c.max_rate {
        48000
    } else if c.min_rate <= 44100 <= c.max_rate {
        44100
    } else {
        c.max_rate
    }
}

/// The rate for a device that promises nothing useful.
pub open spec fn forced_rate(c: ConfigRange) -> u32 {
    if c.max_rate > 48000 {
        48000
    } else if c.max_rate < 8000 {
        8000
    } else {
        c.max_rate
    }
}

/// The settings for a device: the first exact range, else the first with the
/// right samples, else whatever the device makes of it.
pub open spec fn is_choice(configs: Seq<ConfigRange>, r: Option<ConfigChoice>) -> bool {
    if exists|i: int| 0 <= i < configs.len() && is_exact(#[trigger] configs[i]) {
        r matches Some(ConfigChoice::Exact(i)) && i < configs.len() && is_exact(configs[i as int])
            && forall|j: int| 0 <= j < i ==> !is_exact(#[trigger] configs[j])
    } else if exists|i: int| 0 <= i < configs.len() && (#[trigger] configs[i]).is_i16 {
        r matches Some(ConfigChoice::Mono(i, rate)) && i < configs.len() && configs[i as int].is_i16
            && rate == mono_rate(configs[i as int]) && forall|j: int|
            0 <= j < i ==> !(#[trigger] configs[j]).is_i16
    } else if configs.len() > 0 {
        r == Some(ConfigChoice::Forced(forced_rate(configs[0])))
    } else {
        r is None
    }
}

/// Picks the stream settings for a device, preferring 8000 Hz.
pub fn pick_config(configs: &Vec<ConfigRange>) -> (r: Option<ConfigChoice>)
    ensures
        is_choice(configs@, r),
{
    let mut i: usize = 0;
    while i < configs.len()
        invariant
            i <= configs@.len(),
            forall|j: int| 0 <= j < i ==> !is_exact(#[trigger] configs@[j]),
        decreases configs@.len() - i,
    {
        let c = configs[i];
        if c.is_i16 && c.channels == 1 && c.min_rate <= TARGET_RATE && c.max_rate >= TARGET_RATE {
            assert(is_exact(configs@[i as int]));
            return Some(ConfigChoice::Exact(i));
        }
        i = i + 1;
    }
    let mut k: usize = 0;
    while k < configs.len()
        invariant
            k <= configs@.len(),
            forall|j: int| 0 <= j < configs@.len() ==> !is_exact(#[trigger] configs@[j]),
            forall|j: int| 0 <= j < k ==> !(#[trigger] configs@[j]).is_i16,
        decreases configs@.len() - k,
    {
        let c = configs[k];
        if c.is_i16 {
            let rate: u32 = if c.min_rate <= 48000 && c.max_rate >= 48000 {
                48000
            } else if c.min_rate <= 44100 && c.max_rate >= 44100 {
                44100
            } else {
                c.max_rate
            };
            assert(configs@[k as int].is_i16);
            return Some(ConfigChoice::Mono(k, rate));
        }
        k = k + 1;
    }
    if configs.len() > 0 {
        let max: u32 = configs[0].max_rate;
        let rate: u32 = if max > 48000 {
            48000
        } else if max < 8000 {
            8000
        } else {
            max
        };
        return Some(ConfigChoice::Forced(rate));
    }
    None
}

/// Which device to open.
#[derive(Debug, Clone, Copy, PartialEq, Eq, Structural)]
pub enum DeviceChoice {
    /// The system default.
    Default,
    /// The device at this place in the list.
    Named(usize),
    /// The named device is not there.
    Unknown,
}

/// The place of the first device of a name; devices may be without one.
pub open spec fn is_named(names: Seq<Option<String>>, want: Seq<char>, i: int) -> bool {
    0 <= i < names.len() && text::opt_text(names[i]) == Some(want)
}

/// Picks a device by its exact name, or the system default for none or an empty
/// one. An unknown name is never rerouted.
pub fn pick_device(names: &Vec<Option<String>>, want: Option<&str>) -> (r: DeviceChoice)
    ensures
        match want {
            Some(w) => if w@.len() > 0 {
                match r {
                    DeviceChoice::Named(i) => is_named(names@, w@, i as int) && forall|j: int|
                        0 <= j < i ==> !#[trigger] is_named(names@, w@, j),
                    DeviceChoice::Unknown => forall|j: int| !#[trigger] is_named(names@, w@, j),
                    DeviceChoice::Default => false,
                }
            } else {
                r == DeviceChoice::Default
            },
            None => r == DeviceChoice::Default,
        },
{
    match want {
        Some(w) => {
            if w.is_empty() {
                return DeviceChoice::Default;
            }
            let mut i: usize = 0;
            while i < names.len()
                invariant
                    i <= names@.len(),
                    w@.len() > 0,
                    want == Some(w),
                    forall|j: int| 0 <= j < i ==> !#[trigger] is_named(names@, w@, j),
                decreases names@.len() - i,
            {
                if let Some(n) = &names[i] {
                    if text::same(n.as_str(), w) {
                        return DeviceChoice::Named(i);
                    }
                }
                i = i + 1;
            }
            DeviceChoice::Unknown
        },
        None => DeviceChoice::Default,
    }
}

/// The error text for a device that did not open: an unknown name, or no
/// hardware.
pub fn named_device_error(kind: &str, want: Option<&str>) -> (r: String)
    ensures
        r@ == match want {
            Some(w) => if w@.len() > 0 {
                "Unknown audio "@ + kind@ + " device: "@ + w@
            } else {
                "No audio "@ + kind@ + " device found"@
            },
            None => "No audio "@ + kind@ + " device found"@,
        },
{
    if let Some(w) = want {
        if !w.is_empty() {
            let mut s = "Unknown audio ".to_string();
            s.append(kind);
            s.append(" device: ");
            s.append(w);
            return s;
        }
    }
    text::join3("No audio ", kind, " device found")
}

fn clamp(n: u64, low: u64, high: u64) -> (r: u64)
    requires
        low <= high,
    ensures
        r == if n < low {
            low
        } else if n > high {
            high
        } else {
            n
        },
{
    if n < low {
        low
    } else if n > high {
        high
    } else {
        n
    }
}

/// The seconds of a microphone test: one to ten.
pub fn mic_test_seconds(seconds: u64) -> (r: u64)
    ensures
        1 <= r <= 10,
        1 <= seconds <= 10 ==> r == seconds,
        seconds < 1 ==> r == 1,
        seconds > 10 ==> r == 10,
{
    clamp(seconds, 1, 10)
}

/// The milliseconds of a level sample: fifty to a thousand.
pub fn level_sample_msecs(msecs: u64) -> (r: u64)
    ensures
        50 <= r <= 1000,
        50 <= msecs <= 1000 ==> r == msecs,
        msecs < 50 ==> r == 50,
        msecs > 1000 ==> r == 1000,
{
    clamp(msecs, 50, 1000)
}

/// The 20 ms frames of a test tone of a tenth of a second to ten seconds.
pub fn tone_frames(msecs: u64) -> (r: u64)
    ensures
        r == (if msecs < 100 {
            100
        } else if msecs > 10000 {
            10000
        } else {
            msecs as int
        }) / 20,
{
    clamp(msecs, 100, 10000) / 20
}

/// The frames of `n` samples in `s`, one behind the other.
pub open spec fn frames_of(s: Seq<i16>, n: int) -> Seq<Seq<i16>>
    decreases s.len(),
{
    if n <= 0 || s.len() < n {
        Seq::empty()
    } else {
        Seq::empty().push(s.take(n)) + frames_of(s.skip(n), n)
    }
}

/// What is left of `s` behind its last whole frame.
pub open spec fn rest_of(s: Seq<i16>, n: int) -> Seq<i16>
    decreases s.len(),
{
    if n <= 0 || s.len() < n {
        s
    } else {
        rest_of(s.skip(n), n)
    }
}

/// Sequences one behind the other.
pub open spec fn concat(frames: Seq<Seq<i16>>) -> Seq<i16>
    decreases frames.len(),
{
    if frames.len() == 0 {
        Seq::empty()
    } else {
        frames[0] + concat(frames.skip(1))
    }
}

/// Cutting samples into frames loses and reorders nothing.
pub proof fn law_frames_keep_samples(s: Seq<i16>, n: int)
    requires
        n > 0,
    ensures
        concat(frames_of(s, n)) + rest_of(s, n) == s,
        rest_of(s, n).len() < n,
    decreases s.len(),
{
    if s.len() < n {
        assert(concat(Seq::<Seq<i16>>::empty()) + s =~= s);
    } else {
        let tail = s.skip(n);
        law_frames_keep_samples(tail, n);
        let f = frames_of(s, n);
        assert(f[0] =~= s.take(n));
        assert(f.skip(1) =~= frames_of(tail, n));
        assert(s.take(n) + (concat(frames_of(tail, n)) + rest_of(tail, n)) =~= s);
        assert(concat(f) + rest_of(s, n) =~= s.take(n) + (concat(frames_of(tail, n)) + rest_of(
            tail,
            n,
        )));
    }
}

pub open spec fn frame_views(v: Seq<Vec<i16>>) -> Seq<Seq<i16>> {
    Seq::new(v.len(), |i: int| v[i]@)
}

fn copy_samples(v: &Vec<i16>, from: usize, to: usize) -> (r: Vec<i16>)
    requires
        from <= to <= v@.len(),
    ensures
        r@ == v@.subrange(from as int, to as int),
{
    let mut r: Vec<i16> = Vec::new();
    let mut i: usize = from;
    while i < to
        invariant
            from <= i <= to <= v@.len(),
            r@ == v@.subrange(from as int, i as int),
        decreases to - i,
    {
        r.push(v[i]);
        i = i + 1;
    }
    r
}

/// Takes captured samples, hands out the whole frames, and keeps the rest.
pub fn take_frames(pending: &mut Vec<i16>, data: &[i16], frame: usize) -> (r: Vec<Vec<i16>>)
    requires
        frame > 0,
    ensures
        frame_views(r@) == frames_of(old(pending)@ + data@, frame as int),
        final(pending)@ == rest_of(old(pending)@ + data@, frame as int),
{
    let mut i: usize = 0;
    proof {
        assert(old(pending)@ + data@.take(0) =~= old(pending)@);
    }
    while i < data.len()
        invariant
            i <= data@.len(),
            pending@ == old(pending)@ + data@.take(i as int),
        decreases data@.len() - i,
    {
        pending.push(data[i]);
        proof {
            assert(old(pending)@ + data@.take(i + 1) =~= (old(pending)@ + data@.take(
                i as int,
            )).push(data@[i as int]));
        }
        i = i + 1;
    }
    proof {
        assert(data@.take(i as int) =~= data@);
    }
    let n: usize = pending.len();
    let ghost all = pending@;
    let mut out: Vec<Vec<i16>> = Vec::new();
    let mut at: usize = 0;
    proof {
        assert(all.skip(0) =~= all);
        assert(frame_views(out@) + frames_of(all, frame as int) =~= frames_of(all, frame as int));
    }
    while n - at >= frame
        invariant
            at <= n,
            frame > 0,
            n == pending@.len(),
            all == pending@,
            frame_views(out@) + frames_of(all.skip(at as int), frame as int) == frames_of(
                all,
                frame as int,
            ),
            rest_of(all, frame as int) == rest_of(all.skip(at as int), frame as int),
        decreases n - at,
    {
        let f = copy_samples(pending, at, at + frame);
        proof {
            let tail = all.skip(at as int);
            assert(tail.take(frame as int) =~= f@);
            assert(tail.skip(frame as int) =~= all.skip(at + frame));
            let rest = frames_of(all.skip(at + frame), frame as int);
            assert(frame_views(out@.push(f)) + rest =~= frame_views(out@) + (Seq::empty().push(f@)
                + rest));
        }
        out.push(f);
        at = at + frame;
    }
    let left = copy_samples(pending, at, n);
    proof {
        assert(left@ =~= all.skip(at as int));
        assert(frame_views(out@) + Seq::empty() =~= frame_views(out@));
    }
    *pending = left;
    out
}

/// Takes `n` samples for playback: the ones that wait, then silence.
pub fn take_playback(ring: &mut VecDeque<i16>, n: usize) -> (r: Vec<i16>)
    ensures
        r@ == Seq::new(
            n as nat,
            |i: int|
                if i < old(ring)@.len() {
                    old(ring)@[i]
                } else {
                    0i16
                },
        ),
        final(ring)@ == old(ring)@.skip(
            if n < old(ring)@.len() {
                n as int
            } else {
                old(ring)@.len() as int
            },
        ),
{
    let mut out: Vec<i16> = Vec::new();
    let mut i: usize = 0;
    let ghost start = ring@;
    let ghost all = Seq::new(
        n as nat,
        |i: int|
            if i < start.len() {
                start[i]
            } else {
                0i16
            },
    );
    proof {
        assert(start.skip(0) =~= start);
        assert(out@ =~= all.take(0));
    }
    while i < n
        invariant
            i <= n,
            all.len() == n,
            forall|j: int|
                0 <= j < n ==> #[trigger] all[j] == (if j < start.len() {
                    start[j]
                } else {
                    0i16
                }),
            out@ == all.take(i as int),
            ring@ == start.skip(
                if i < start.len() {
                    i as int
                } else {
                    start.len() as int
                },
            ),
        decreases n - i,
    {
        let s: i16 = match ring.pop_front() {
            Some(x) => x,
            None => 0,
        };
        out.push(s);
        proof {
            assert(out@ =~= all.take(i + 1));
            assert(ring@ =~= start.skip(
                if i + 1 < start.len() {
                    i + 1
                } else {
                    start.len() as int
                },
            ));
        }
        i = i + 1;
    }
    proof {
        assert(all.take(n as int) =~= all);
    }
    out
}

/// A device that offers samples of sixteen bits on one channel at eight thousand a
/// second is used as it is; the first such offer counts.
pub proof fn law_exact_offer_is_taken(configs: Seq<ConfigRange>, i: int, r: Option<ConfigChoice>)
    requires
        is_choice(configs, r),
        0 <= i < configs.len(),
        configs[i].is_i16,
        configs[i].channels == 1,
        configs[i].min_rate <= 8000 <= configs[i].max_rate,
    ensures
        r matches Some(ConfigChoice::Exact(k)) && k <= i && configs[k as int].is_i16
            && configs[k as int].channels == 1 && configs[k as int].min_rate <= 8000
            <= configs[k as int].max_rate,
{
    assert(is_exact(configs[i]));
}

/// The rate that is taken is one that the device offers: 48000 or 44100 where it can, else
/// the highest. Where no offer fits, it is the highest of the first offer, within bounds.
pub proof fn law_rate_is_offered(c: ConfigRange)
    requires
        c.min_rate <= c.max_rate,
    ensures
        c.min_rate <= mono_rate(c) <= c.max_rate,
        c.min_rate <= 48000 <= c.max_rate ==> mono_rate(c) == 48000,
        !(c.min_rate <= 48000 <= c.max_rate) && c.min_rate <= 44100 <= c.max_rate ==> mono_rate(c)
            == 44100,
        8000 <= forced_rate(c) <= 48000,
        8000 <= c.max_rate <= 48000 ==> forced_rate(c) == c.max_rate,
{
}

/// There is a choice exactly where there is an offer.
pub proof fn law_choice_where_offered(configs: Seq<ConfigRange>, r: Option<ConfigChoice>)
    requires
        is_choice(configs, r),
    ensures
        r is Some <==> configs.len() > 0,
{
}

/// Frames are the samples in their order, each of the same length, and what is left is
/// shorter than one.
pub proof fn law_frames_have_their_length(s: Seq<i16>, n: int, i: int)
    requires
        n > 0,
    ensures
        rest_of(s, n).len() < n,
        0 <= i < frames_of(s, n).len() ==> frames_of(s, n)[i].len() == n,
        frames_of(s, n).len() == s.len() / n as nat,
    decreases s.len(),
{
    if s.len() >= n {
        law_frames_have_their_length(s.skip(n), n, i - 1);
        let m = s.len() - n;
        assert(s.len() as int / n == 1 + m / n) by (nonlinear_arith)
            requires
                n > 0,
                s.len() as int == m + n,
                m >= 0,
        ;
    } else {
        assert(s.len() as int / n == 0) by (nonlinear_arith)
            requires
                0 <= s.len() as int,
                (s.len() as int) < n,
        ;
    }
}

/// A device is chosen by its whole name.
pub proof fn law_devices_by_name(names: Seq<Option<String>>, want: Seq<char>, i: int)
    ensures
        is_named(names, want, i) <==> 0 <= i < names.len() && (names[i] matches Some(n) && n@
            == want),
{
}

} // verus!
