use vstd::prelude::*;
use crate::bits::{RawVec4, bits_le, bits_lt, bits_max, f32_bits_le, f32_bits_lt, f32_bits_max};
use crate::number::{u32_at, byte_at};
use crate::reader::{DecodeError, text_at, word_at, read_text, read_word};

verus! {

/// Channel kind: placeholder keys that carry no value.
pub const KIND_NONE: u8 = 0;
/// Channel kind: translation keys.
pub const KIND_TRANSLATION: u8 = 1;
/// Channel kind: rotation keys (quaternions).
pub const KIND_ROTATION: u8 = 2;
/// Channel kind: scale keys.
pub const KIND_SCALE: u8 = 3;

/// One animated property of one bone: key times and key values, as bit patterns.
#[derive(Clone, Debug)]
pub struct MeshAnimationSequence {
    pub key: String,
    pub kind: u8,
    pub prev_frame: usize,
    pub next_frame: usize,
    pub time: Vec<u32>,
    pub value: Vec<RawVec4>,
}

/// What a channel holds.
pub ghost struct ChannelModel {
    pub key: Seq<char>,
    pub kind: u8,
    pub prev_frame: usize,
    pub next_frame: usize,
    pub time: Seq<u32>,
    pub value: Seq<RawVec4>,
}

impl View for MeshAnimationSequence {
    type V = ChannelModel;

    open spec fn view(&self) -> ChannelModel {
        ChannelModel {
            key: self.key@,
            kind: self.kind,
            prev_frame: self.prev_frame,
            next_frame: self.next_frame,
            time: self.time@,
            value: self.value@,
        }
    }
}

/// A named clip: its playback time and duration as bit patterns, and its channels.
#[derive(Clone, Debug)]
pub struct MeshAnimation {
    pub name: String,
    pub current_time: u32,
    pub duration: u32,
    pub sequence_list: Vec<MeshAnimationSequence>,
}

/// What a clip holds.
pub ghost struct ClipModel {
    pub name: Seq<char>,
    pub current_time: u32,
    pub duration: u32,
    pub channels: Seq<ChannelModel>,
}

impl View for MeshAnimation {
    type V = ClipModel;

    open spec fn view(&self) -> ClipModel {
        ClipModel {
            name: self.name@,
            current_time: self.current_time,
            duration: self.duration,
            channels: self.sequence_list@.map_values(|s: MeshAnimationSequence| s@),
        }
    }
}

/// Whether `t` lies in `[times[i], times[i + 1])`.
pub open spec fn in_bracket(times: Seq<u32>, t: u32, i: int) -> bool {
    bits_le(times[i], t) && bits_lt(t, times[i + 1])
}

/// The first key pair `(i, i + 1)` at or after `from` whose interval holds `t`, or
/// `(0, 0)` where none does.
pub open spec fn bracket_from(times: Seq<u32>, t: u32, from: int) -> (usize, usize)
    decreases times.len() - from,
{
    if from < 0 || from >= times.len() - 1 {
        (0, 0)
    } else if in_bracket(times, t, from) {
        (from as usize, (from + 1) as usize)
    } else {
        bracket_from(times, t, from + 1)
    }
}

/// The first key pair `(i, i + 1)` whose interval holds `t`, or `(0, 0)` where none does.
pub open spec fn bracket(times: Seq<u32>, t: u32) -> (usize, usize) {
    bracket_from(times, t, 0)
}

/// Finds the first pair of consecutive key times whose half-open interval holds `t`;
/// `(0, 0)` where there is none, as when `t` precedes the first key or reaches the last.
pub fn find_bracket(times: &Vec<u32>, t: u32) -> (r: (usize, usize))
    ensures
        r == bracket(times@, t),
{
    let n = times.len();
    if n < 2 {
        return (0, 0);
    }
    let mut i: usize = 0;
    while i < n - 1
        invariant
            n == times@.len(),
            n >= 2,
            i <= n - 1,
            bracket(times@, t) == bracket_from(times@, t, i as int),
        decreases n - 1 - i,
    {
        if f32_bits_le(times[i], t) && f32_bits_lt(t, times[i + 1]) {
            return (i, i + 1);
        }
        i = i + 1;
    }
    (0, 0)
}

impl MeshAnimationSequence {
    /// An empty placeholder channel.
    pub fn new() -> (s: MeshAnimationSequence)
        ensures
            s@.key.len() == 0,
            s@.kind == KIND_NONE,
            s@.prev_frame == 0 && s@.next_frame == 0,
            s@.time.len() == 0 && s@.value.len() == 0,
    {
        MeshAnimationSequence {
            key: String::new(),
            kind: KIND_NONE,
            prev_frame: 0,
            next_frame: 0,
            time: Vec::new(),
            value: Vec::new(),
        }
    }

    /// Selects the keys around playback time `time`: the first pair of consecutive keys
    /// whose interval `[time[i], time[i + 1])` holds it, or keys `0, 0` where none does.
    pub fn calculate_frames(&mut self, time: u32)
        ensures
            (final(self).prev_frame, final(self).next_frame) == bracket(old(self).time@, time),
            final(self)@ == (ChannelModel {
                prev_frame: final(self).prev_frame,
                next_frame: final(self).next_frame,
                ..old(self)@
            }),
    {
        let (p, q) = find_bracket(&self.time, time);
        self.prev_frame = p;
        self.next_frame = q;
    }
}

/// The index of the last entry of `ids` equal to `id`.
pub open spec fn last_match(ids: Seq<u8>, id: u8) -> Option<int>
    decreases ids.len(),
{
    if ids.len() == 0 {
        None
    } else if ids.last() == id {
        Some(ids.len() - 1)
    } else {
        last_match(ids.drop_last(), id)
    }
}

/// The name that the clip's index map gives bone number `id` (the last entry wins).
pub open spec fn resolve(ids: Seq<u8>, names: Seq<Seq<char>>, id: u8) -> Option<Seq<char>> {
    match last_match(ids, id) {
        Some(k) => Some(names[k]),
        None => None,
    }
}

/// Reads `n` index-map entries (a bone number, then its name) from `off`, appending them.
pub open spec fn parse_index_map(
    b: Seq<u8>,
    off: int,
    n: nat,
    ids: Seq<u8>,
    names: Seq<Seq<char>>,
) -> Option<(Seq<u8>, Seq<Seq<char>>, int)>
    decreases n,
{
    if n == 0 {
        Some((ids, names, off))
    } else if 0 <= off < b.len() {
        match text_at(b, off + 1) {
            Some((t, o)) => parse_index_map(b, o, (n - 1) as nat, ids.push(b[off]), names.push(t)),
            None => None,
        }
    } else {
        None
    }
}

/// `n` key times stored as little-endian words from `off`.
pub open spec fn key_times(b: Seq<u8>, off: int, n: nat) -> Seq<u32> {
    Seq::new(n, |k: int| u32_at(b, off + 4 * k))
}

/// The running maximum of `d` and every time in `s`.
pub open spec fn max_over(d: u32, s: Seq<u32>) -> u32
    decreases s.len(),
{
    if s.len() == 0 {
        d
    } else {
        bits_max(max_over(d, s.drop_last()), s.last())
    }
}

/// The bytes that one key value of a channel of kind `op` takes; zero for kinds that
/// store no values.
pub open spec fn value_width(op: u8) -> int {
    if op == KIND_NONE {
        4
    } else if op == KIND_TRANSLATION || op == KIND_SCALE {
        12
    } else if op == KIND_ROTATION {
        16
    } else {
        0
    }
}

/// The key value at `off` for a channel of kind `op`: zero for placeholders, three
/// words and a zero for translation and scale, four words for rotation.
pub open spec fn value_at(b: Seq<u8>, off: int, op: u8) -> RawVec4 {
    if op == KIND_ROTATION {
        RawVec4 { x: u32_at(b, off), y: u32_at(b, off + 4), z: u32_at(b, off + 8), w: u32_at(b, off + 12) }
    } else if op == KIND_TRANSLATION || op == KIND_SCALE {
        RawVec4 { x: u32_at(b, off), y: u32_at(b, off + 4), z: u32_at(b, off + 8), w: 0 }
    } else {
        RawVec4 { x: 0, y: 0, z: 0, w: 0 }
    }
}

/// How many key values a channel of kind `op` with declared count `n` stores.
pub open spec fn value_count(op: u8, n: nat) -> nat {
    if value_width(op) == 0 {
        0
    } else {
        n
    }
}

/// The key values of a channel of kind `op` with declared count `n`, from `off`.
pub open spec fn key_values(b: Seq<u8>, off: int, op: u8, n: nat) -> Seq<RawVec4> {
    Seq::new(value_count(op, n), |k: int| value_at(b, off + value_width(op) * k, op))
}

/// One channel at `off`, with the clip duration so far raised to its key times, and the
/// offset after it.
pub open spec fn parse_channel(
    b: Seq<u8>,
    off: int,
    ids: Seq<u8>,
    names: Seq<Seq<char>>,
    dur: u32,
) -> Option<(ChannelModel, u32, int)> {
    if 0 <= off && off + 2 <= b.len() {
        let op = b[off + 1];
        match resolve(ids, names, b[off]) {
            Some(key) => match word_at(b, off + 2) {
                Some((nt, o1)) => if o1 + 4 * nt <= b.len() {
                    let times = key_times(b, o1, nt as nat);
                    let o2 = o1 + 4 * nt;
                    match word_at(b, o2) {
                        Some((nv, o3)) => {
                            let end = o3 + value_width(op) * value_count(op, nv as nat);
                            if end <= b.len() {
                                Some((ChannelModel {
                                    key,
                                    kind: op,
                                    prev_frame: 0,
                                    next_frame: 0,
                                    time: times,
                                    value: key_values(b, o3, op, nv as nat),
                                }, max_over(dur, times), end))
                            } else {
                                None
                            }
                        },
                        None => None,
                    }
                } else {
                    None
                },
                None => None,
            },
            None => None,
        }
    } else {
        None
    }
}

/// `n` channels from `off`, appended to `acc`.
pub open spec fn parse_channels(
    b: Seq<u8>,
    off: int,
    n: nat,
    ids: Seq<u8>,
    names: Seq<Seq<char>>,
    acc: Seq<ChannelModel>,
    dur: u32,
) -> Option<(Seq<ChannelModel>, u32, int)>
    decreases n,
{
    if n == 0 {
        Some((acc, dur, off))
    } else {
        match parse_channel(b, off, ids, names, dur) {
            Some((c, d, o)) => parse_channels(b, o, (n - 1) as nat, ids, names, acc.push(c), d),
            None => None,
        }
    }
}

/// The clip that `b` encodes: a version byte, an index map from bone numbers to names,
/// the clip's name, then its channels. The duration is the largest key time seen and
/// playback starts at time zero.
pub open spec fn clip_model(b: Seq<u8>) -> Option<ClipModel> {
    if b.len() >= 2 {
        match parse_index_map(b, 2, b[1] as nat, seq![], seq![]) {
            Some((ids, names, o)) => match text_at(b, o) {
                Some((name, o2)) => match word_at(b, o2) {
                    Some((nc, o3)) => match parse_channels(b, o3, nc as nat, ids, names, seq![], 0) {
                        Some((chs, dur, _)) => Some(
                            ClipModel { name, current_time: 0, duration: dur, channels: chs },
                        ),
                        None => None,
                    },
                    None => None,
                },
                None => None,
            },
            None => None,
        }
    } else {
        None
    }
}

/// The names of a list of texts.
pub open spec fn texts(v: Seq<String>) -> Seq<Seq<char>> {
    v.map_values(|s: String| s@)
}

fn read_index_map(b: &[u8], off: usize, n: u8) -> (r: Option<(Vec<u8>, Vec<String>, usize)>)
    ensures
        match parse_index_map(b@, off as int, n as nat, seq![], seq![]) {
            Some((ids, names, o)) => r matches Some((i, m, p)) && i@ == ids && texts(m@) == names
                && p == o && i@.len() == m@.len(),
            None => r is None,
        },
{
    let mut ids: Vec<u8> = Vec::new();
    let mut names: Vec<String> = Vec::new();
    let mut cur = off;
    let mut i: u8 = 0;
    assert(texts(names@) =~= seq![]);
    while i < n
        invariant
            i <= n,
            ids@.len() == names@.len(),
            parse_index_map(b@, off as int, n as nat, seq![], seq![]) == parse_index_map(
                b@,
                cur as int,
                (n - i) as nat,
                ids@,
                texts(names@),
            ),
        decreases n - i,
    {
        if cur >= b.len() {
            return None;
        }
        let id = b[cur];
        let (name, next) = match read_text(b, cur + 1) {
            Some(x) => x,
            None => return None,
        };
        proof {
            assert(texts(names@.push(name)) =~= texts(names@).push(name@));
        }
        ids.push(id);
        names.push(name);
        cur = next;
        i = i + 1;
    }
    Some((ids, names, cur))
}

fn lookup_name(ids: &Vec<u8>, names: &Vec<String>, id: u8) -> (r: Option<String>)
    requires
        ids@.len() == names@.len(),
    ensures
        match resolve(ids@, texts(names@), id) {
            Some(t) => r matches Some(s) && s@ == t,
            None => r is None,
        },
{
    let mut i: usize = ids.len();
    assert(ids@.take(i as int) =~= ids@);
    while i > 0
        invariant
            i <= ids@.len(),
            ids@.len() == names@.len(),
            last_match(ids@, id) == last_match(ids@.take(i as int), id),
        decreases i,
    {
        assert(ids@.take(i as int).drop_last() =~= ids@.take(i - 1));
        if ids[i - 1] == id {
            return Some(names[i - 1].clone());
        }
        i = i - 1;
    }
    None
}

fn read_times(b: &[u8], off: usize, n: u32, dur: u32) -> (r: Option<(Vec<u32>, u32, usize)>)
    ensures
        off + 4 * n <= b@.len() ==> (r matches Some((t, d, p)) && t@ == key_times(
            b@,
            off as int,
            n as nat,
        ) && d == max_over(dur, t@) && p == off + 4 * n),
        off + 4 * n > b@.len() ==> r is None,
{
    let len = b.len();
    if off > len || (n as usize) > (len - off) / 4 {
        assert(off + 4 * n > len) by (nonlinear_arith)
            requires
                off > len || n > (len - off) / 4,
        ;
        return None;
    }
    assert(off + 4 * n <= len) by (nonlinear_arith)
        requires
            off <= len,
            n <= (len - off) / 4,
    ;
    let mut times: Vec<u32> = Vec::new();
    let mut d = dur;
    let mut i: usize = 0;
    while i < n as usize
        invariant
            off + 4 * n <= len,
            len == b@.len(),
            i <= n,
            times@ == key_times(b@, off as int, i as nat),
            d == max_over(dur, times@),
        decreases n - i,
    {
        let o = off + 4 * i;
        let w = crate::number::le_slice_to_u32(crate::number::slice_from(b, o));
        proof {
            assert(key_times(b@, off as int, (i + 1) as nat) =~= times@.push(w));
            assert(times@.push(w).drop_last() =~= times@);
        }
        times.push(w);
        d = f32_bits_max(d, w);
        i = i + 1;
    }
    assert(key_times(b@, off as int, n as nat) =~= times@);
    Some((times, d, off + 4 * (n as usize)))
}

fn value_width_of(op: u8) -> (w: usize)
    ensures
        w == value_width(op),
{
    if op == KIND_NONE {
        4
    } else if op == KIND_TRANSLATION || op == KIND_SCALE {
        12
    } else if op == KIND_ROTATION {
        16
    } else {
        0
    }
}

fn read_value(b: &[u8], off: usize, op: u8) -> (v: RawVec4)
    requires
        off + value_width(op) <= b@.len(),
        value_width(op) > 0,
    ensures
        v == value_at(b@, off as int, op),
{
    let len = b.len();
    if op == KIND_ROTATION {
        RawVec4 {
            x: crate::number::le_slice_to_u32(crate::number::slice_from(b, off)),
            y: crate::number::le_slice_to_u32(crate::number::slice_from(b, off + 4)),
            z: crate::number::le_slice_to_u32(crate::number::slice_from(b, off + 8)),
            w: crate::number::le_slice_to_u32(crate::number::slice_from(b, off + 12)),
        }
    } else if op == KIND_TRANSLATION || op == KIND_SCALE {
        RawVec4 {
            x: crate::number::le_slice_to_u32(crate::number::slice_from(b, off)),
            y: crate::number::le_slice_to_u32(crate::number::slice_from(b, off + 4)),
            z: crate::number::le_slice_to_u32(crate::number::slice_from(b, off + 8)),
            w: 0,
        }
    } else {
        RawVec4 { x: 0, y: 0, z: 0, w: 0 }
    }
}

fn read_values(b: &[u8], off: usize, op: u8, n: u32) -> (r: Option<(Vec<RawVec4>, usize)>)
    ensures
        ({
            let end = off + value_width(op) * value_count(op, n as nat);
            &&& end <= b@.len() ==> (r matches Some((v, p)) && v@ == key_values(
                b@,
                off as int,
                op,
                n as nat,
            ) && p == end)
            &&& end > b@.len() ==> r is None
        }),
{
    let w = value_width_of(op);
    let len = b.len();
    let mut values: Vec<RawVec4> = Vec::new();
    if w == 0 {
        if off > len {
            return None;
        }
        assert(key_values(b@, off as int, op, n as nat) =~= values@);
        return Some((values, off));
    }
    if off > len || (n as usize) > (len - off) / w {
        assert(off + w * n > len) by (nonlinear_arith)
            requires
                off > len || n as int > (len - off) as int / w as int,
                w > 0,
        ;
        return None;
    }
    assert(off + w * n <= len) by (nonlinear_arith)
        requires
            off <= len,
            n as int <= (len - off) as int / w as int,
            w > 0,
    ;
    let mut i: usize = 0;
    while i < n as usize
        invariant
            off + w * n <= len,
            len == b@.len(),
            w == value_width(op),
            w > 0,
            i <= n,
            values@ == Seq::new(i as nat, |k: int| value_at(b@, off + value_width(op) * k, op)),
        decreases n - i,
    {
        assert(w * i + w <= w * n) by (nonlinear_arith)
            requires
                i < n,
                w > 0,
        ;
        let o = off + w * i;
        let v = read_value(b, o, op);
        proof {
            assert(Seq::new((i + 1) as nat, |k: int| value_at(b@, off + value_width(op) * k, op))
                =~= values@.push(v));
        }
        values.push(v);
        i = i + 1;
    }
    assert(key_values(b@, off as int, op, n as nat) =~= values@);
    Some((values, off + w * (n as usize)))
}

fn read_channel(b: &[u8], off: usize, ids: &Vec<u8>, names: &Vec<String>, dur: u32) -> (r: Option<
    (MeshAnimationSequence, u32, usize),
>)
    requires
        ids@.len() == names@.len(),
    ensures
        match parse_channel(b@, off as int, ids@, texts(names@), dur) {
            Some((c, d, o)) => r matches Some((s, e, p)) && s@ == c && e == d && p == o,
            None => r is None,
        },
{
    let len = b.len();
    if off > len || len - off < 2 {
        return None;
    }
    let node = b[off];
    let op = b[off + 1];
    let key = match lookup_name(ids, names, node) {
        Some(k) => k,
        None => return None,
    };
    let (nt, o1) = match read_word(b, off + 2) {
        Some(x) => x,
        None => return None,
    };
    let (time, d, o2) = match read_times(b, o1, nt, dur) {
        Some(x) => x,
        None => return None,
    };
    let (nv, o3) = match read_word(b, o2) {
        Some(x) => x,
        None => return None,
    };
    let (value, end) = match read_values(b, o3, op, nv) {
        Some(x) => x,
        None => return None,
    };
    let s = MeshAnimationSequence { key, kind: op, prev_frame: 0, next_frame: 0, time, value };
    Some((s, d, end))
}

impl MeshAnimation {
    /// An empty clip with no name, stopped at time zero.
    pub fn new() -> (a: MeshAnimation)
        ensures
            a@.name.len() == 0,
            a@.current_time == 0 && a@.duration == 0,
            a@.channels.len() == 0,
    {
        let a = MeshAnimation {
            name: String::new(),
            current_time: 0,
            duration: 0,
            sequence_list: Vec::new(),
        };
        assert(a@.channels =~= seq![]);
        a
    }

    /// Moves playback to `time` and selects, in every channel, the keys around it.
    pub fn seek(&mut self, time: u32)
        ensures
            final(self)@ == (ClipModel {
                current_time: time,
                channels: Seq::new(
                    old(self)@.channels.len(),
                    |i: int| {
                        let c = old(self)@.channels[i];
                        ChannelModel { prev_frame: bracket(c.time, time).0, next_frame: bracket(c.time, time).1, ..c }
                    },
                ),
                ..old(self)@
            }),
    {
        self.current_time = time;
        let ghost c0 = old(self)@.channels;
        let n = self.sequence_list.len();
        let mut i: usize = 0;
        while i < n
            invariant
                n == self.sequence_list@.len(),
                n == c0.len(),
                i <= n,
                self.name@ == old(self)@.name,
                self.duration == old(self)@.duration,
                self.current_time == time,
                forall|k: int| 0 <= k < i ==> #[trigger] self.sequence_list@[k]@ == ({
                    let c = c0[k];
                    ChannelModel { prev_frame: bracket(c.time, time).0, next_frame: bracket(c.time, time).1, ..c }
                }),
                forall|k: int| i <= k < n ==> #[trigger] self.sequence_list@[k]@ == c0[k],
            decreases n - i,
        {
            self.sequence_list[i].calculate_frames(time);
            i = i + 1;
        }
        proof {
            assert(self@.channels =~= Seq::new(
                c0.len(),
                |i: int| {
                    let c = c0[i];
                    ChannelModel { prev_frame: bracket(c.time, time).0, next_frame: bracket(c.time, time).1, ..c }
                },
            ));
        }
    }

    /// Decodes a clip: a version byte, an index map from bone numbers to names, the
    /// clip's name, then its channels. Fails with `MalformedInput` exactly where the
    /// bytes do not hold such a clip (they end early, a name is not UTF-8, or a channel
    /// names a bone number that the index map lacks).
    pub fn from_bytes(bytes: &[u8]) -> (r: Result<MeshAnimation, DecodeError>)
        ensures
            match clip_model(bytes@) {
                Some(m) => r matches Ok(a) && a@ == m,
                None => r == Err::<MeshAnimation, DecodeError>(DecodeError::MalformedInput),
            },
    {
        if bytes.len() < 2 {
            return Err(DecodeError::MalformedInput);
        }
        let (ids, names, o) = match read_index_map(bytes, 2, bytes[1]) {
            Some(x) => x,
            None => return Err(DecodeError::MalformedInput),
        };
        let (name, o2) = match read_text(bytes, o) {
            Some(x) => x,
            None => return Err(DecodeError::MalformedInput),
        };
        let (nc, o3) = match read_word(bytes, o2) {
            Some(x) => x,
            None => return Err(DecodeError::MalformedInput),
        };
        let ghost b = bytes@;
        let ghost gids = ids@;
        let ghost gnames = texts(names@);
        let ghost gname = name@;
        assert(clip_model(b) == match parse_channels(b, o3 as int, nc as nat, gids, gnames, seq![], 0) {
            Some((chs, d, _)) => Some(ClipModel { name: gname, current_time: 0, duration: d, channels: chs }),
            None => None,
        });
        let mut list: Vec<MeshAnimationSequence> = Vec::new();
        let mut dur: u32 = 0;
        let mut cur = o3;
        let mut i: u32 = 0;
        assert(list@.map_values(|s: MeshAnimationSequence| s@) =~= seq![]);
        while i < nc
            invariant
                i <= nc,
                b == bytes@,
                name@ == gname,
                clip_model(b) == match parse_channels(b, o3 as int, nc as nat, gids, gnames, seq![], 0) {
                    Some((chs, d, _)) => Some(
                        ClipModel { name: gname, current_time: 0, duration: d, channels: chs },
                    ),
                    None => None,
                },
                ids@ == gids,
                texts(names@) == gnames,
                ids@.len() == names@.len(),
                parse_channels(b, o3 as int, nc as nat, gids, gnames, seq![], 0) == parse_channels(
                    b,
                    cur as int,
                    (nc - i) as nat,
                    gids,
                    gnames,
                    list@.map_values(|s: MeshAnimationSequence| s@),
                    dur,
                ),
            decreases nc - i,
        {
            let (s, d, next) = match read_channel(bytes, cur, &ids, &names, dur) {
                Some(x) => x,
                None => return Err(DecodeError::MalformedInput),
            };
            proof {
                assert(list@.push(s).map_values(|s: MeshAnimationSequence| s@) =~= list@.map_values(
                    |s: MeshAnimationSequence| s@,
                ).push(s@));
            }
            list.push(s);
            dur = d;
            cur = next;
            i = i + 1;
        }
        Ok(MeshAnimation { name, current_time: 0, duration: dur, sequence_list: list })
    }
}

} // verus!
