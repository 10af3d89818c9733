//! The registry of the bar: the latest fragment of each place, and the line
//! that they make together.

use vstd::prelude::*;
use vstd::std_specs::btree::increasing_seq;
use vstd::std_specs::cmp::OrdSpec;
use vstd::std_specs::iter::IteratorSpec;
use std::collections::BTreeMap;
use crate::format::{utf8, zone_marker, Format, Formatter};
use crate::position::{zone_rank, Align, Position};
use crate::util::Error;

verus! {

/// How many slots a zone has.
pub open spec fn slot_count() -> nat {
    usize::MAX as nat + 1
}

/// The fragment that stands at `place`; nothing where none stands there.
pub open spec fn fragment_at(elts: Map<(Align, nat), Seq<u8>>, place: (Align, nat)) -> Seq<u8> {
    if elts.contains_key(place) {
        elts[place]
    } else {
        Seq::empty()
    }
}

/// The fragments of the first `slots` slots of `zone`, one after the other
/// in the order of their slots.
pub open spec fn zone_text(elts: Map<(Align, nat), Seq<u8>>, zone: Align, slots: nat) -> Seq<u8>
    decreases slots,
{
    if slots == 0 {
        Seq::empty()
    } else {
        zone_text(elts, zone, (slots - 1) as nat) + fragment_at(elts, (zone, (slots - 1) as nat))
    }
}

/// What `zone` adds to the line: its marker, then all its fragments in the
/// order of their slots.
pub open spec fn zone_line(elts: Map<(Align, nat), Seq<u8>>, zone: Align) -> Seq<u8> {
    utf8(zone_marker(zone)) + zone_text(elts, zone, slot_count())
}

/// The line that the fragments `elts` make: the left zone, the centre zone
/// and the right zone, each opened by its marker whether or not it holds a
/// fragment, and a line feed at the end.
pub open spec fn rendered_line(elts: Map<(Align, nat), Seq<u8>>) -> Seq<u8> {
    zone_line(elts, Align::Left) + zone_line(elts, Align::Center) + zone_line(elts, Align::Right)
        + utf8(seq!['\n'])
}

/// A zone adds nothing between two slots where no slot from the one up to
/// the other holds a fragment.
pub proof fn lemma_zone_gap(elts: Map<(Align, nat), Seq<u8>>, zone: Align, from: nat, to: nat)
    requires
        from <= to,
        forall|slot: nat| from <= slot < to ==> !elts.contains_key((zone, slot)),
    ensures
        zone_text(elts, zone, to) == zone_text(elts, zone, from),
    decreases to - from,
{
    if from < to {
        let last = (to - 1) as nat;
        lemma_zone_gap(elts, zone, from, last);
    }
}

/// Whether `pattern` stands in `line` from the index `i` on.
pub open spec fn stands_at(line: Seq<u8>, i: int, pattern: Seq<u8>) -> bool {
    0 <= i && i + pattern.len() <= line.len() && line.subrange(i, i + pattern.len()) == pattern
}

/// The zone whose marker stands in `line` from the index `i` on, if one
/// stands there.
pub open spec fn marker_at(line: Seq<u8>, i: int) -> Option<Align> {
    if stands_at(line, i, utf8(zone_marker(Align::Left))) {
        Some(Align::Left)
    } else if stands_at(line, i, utf8(zone_marker(Align::Center))) {
        Some(Align::Center)
    } else if stands_at(line, i, utf8(zone_marker(Align::Right))) {
        Some(Align::Right)
    } else {
        None
    }
}

/// Whether a zone marker stands anywhere in `text`.
pub open spec fn holds_marker(text: Seq<u8>) -> bool {
    exists|i: int| marker_at(text, i) is Some
}

/// The letter that tells the marker of `zone` from the two others.
pub open spec fn marker_letter(zone: Align) -> u8 {
    match zone {
        Align::Left => 0x6c,
        Align::Center => 0x63,
        Align::Right => 0x72,
    }
}

/// The marker of a zone is four bytes: `%`, `{`, the letter of the zone, `}`.
pub proof fn lemma_marker_bytes(zone: Align)
    ensures
        utf8(zone_marker(zone)) == seq![0x25u8, 0x7bu8, marker_letter(zone), 0x7du8],
{
    reveal_strlit("%{l}");
    reveal_strlit("%{c}");
    reveal_strlit("%{r}");
    vstd::utf8::is_ascii_chars_encode_utf8(zone_marker(zone));
}

/// A line feed is the one byte `0x0a`.
proof fn lemma_line_feed()
    ensures
        utf8(seq!['\n']) == seq![0x0au8],
{
    vstd::utf8::is_ascii_chars_encode_utf8(seq!['\n']);
}

/// Where a marker stands, `%` comes first and neither `%` nor a line feed
/// follows within the marker.
proof fn lemma_marker_shape(line: Seq<u8>, i: int)
    requires
        marker_at(line, i) is Some,
    ensures
        0 <= i,
        i + 4 <= line.len(),
        line[i] == 0x25,
        line[i + 1] != 0x25 && line[i + 1] != 0x0a,
        line[i + 2] != 0x25 && line[i + 2] != 0x0a,
        line[i + 3] != 0x25 && line[i + 3] != 0x0a,
{
    let zone = marker_at(line, i)->Some_0;
    lemma_marker_bytes(zone);
    let window = line.subrange(i, i + 4);
    assert(window[0] == line[i] && window[1] == line[i + 1]);
    assert(window[2] == line[i + 2] && window[3] == line[i + 3]);
}

/// A pattern that stands in one of two texts stands in the two put
/// together, at the same place of that text.
proof fn lemma_stands_in_concat(a: Seq<u8>, b: Seq<u8>, i: int, pattern: Seq<u8>)
    ensures
        stands_at(a, i, pattern) ==> stands_at(a + b, i, pattern),
        stands_at(b, i, pattern) ==> stands_at(a + b, a.len() + i, pattern),
{
    if stands_at(a, i, pattern) {
        assert((a + b).subrange(i, i + pattern.len()) =~= a.subrange(i, i + pattern.len()));
    }
    if stands_at(b, i, pattern) {
        assert((a + b).subrange(a.len() + i, a.len() + i + pattern.len()) =~= b.subrange(
            i,
            i + pattern.len(),
        ));
    }
}

/// A marker that stands in two texts put together stands in the first, or
/// in the second, or across the seam; in that last case the second text
/// begins with a byte from within a marker, neither `%` nor a line feed.
proof fn lemma_marker_in_concat(a: Seq<u8>, b: Seq<u8>, i: int)
    requires
        marker_at(a + b, i) is Some,
    ensures
        0 <= i,
        i + 4 <= a.len() + b.len(),
        i + 4 <= a.len() ==> marker_at(a, i) is Some,
        i < a.len() ==> a[i] == 0x25,
        i < a.len() < i + 4 ==> b[0] != 0x25 && b[0] != 0x0a,
        a.len() <= i ==> marker_at(b, i - a.len()) is Some,
{
    let line = a + b;
    let zone = marker_at(line, i)->Some_0;
    let pattern = utf8(zone_marker(zone));
    lemma_marker_bytes(zone);
    lemma_marker_shape(line, i);
    if i + 4 <= a.len() {
        assert(a.subrange(i, i + 4) =~= line.subrange(i, i + 4));
    }
    if i < a.len() < i + 4 {
        assert(line[a.len() as int] == b[0]);
    }
    if a.len() <= i {
        assert(b.subrange(i - a.len(), i - a.len() + 4) =~= line.subrange(i, i + 4));
    }
}

/// The line that the fragments `elts` make, put together from the end: each
/// marker and each zone before all that follows it.
spec fn line_from_0(elts: Map<(Align, nat), Seq<u8>>) -> Seq<u8> {
    utf8(zone_marker(Align::Left)) + line_from_1(elts)
}

spec fn line_from_1(elts: Map<(Align, nat), Seq<u8>>) -> Seq<u8> {
    zone_text(elts, Align::Left, slot_count()) + line_from_2(elts)
}

spec fn line_from_2(elts: Map<(Align, nat), Seq<u8>>) -> Seq<u8> {
    utf8(zone_marker(Align::Center)) + line_from_3(elts)
}

spec fn line_from_3(elts: Map<(Align, nat), Seq<u8>>) -> Seq<u8> {
    zone_text(elts, Align::Center, slot_count()) + line_from_4(elts)
}

spec fn line_from_4(elts: Map<(Align, nat), Seq<u8>>) -> Seq<u8> {
    utf8(zone_marker(Align::Right)) + line_from_5(elts)
}

spec fn line_from_5(elts: Map<(Align, nat), Seq<u8>>) -> Seq<u8> {
    zone_text(elts, Align::Right, slot_count()) + utf8(seq!['\n'])
}

/// The line is the same whether it is put together from the start or from
/// the end.
proof fn lemma_line_from(elts: Map<(Align, nat), Seq<u8>>)
    ensures
        rendered_line(elts) == line_from_0(elts),
{
}

/// The line that a registry makes always holds the three markers, in the
/// order left, centre, right: the left one at the start, each of the others
/// right after the fragments of the zone before it.
pub proof fn lemma_markers_in_order(elts: Map<(Align, nat), Seq<u8>>)
    ensures
        ({
            let line = rendered_line(elts);
            let left = zone_text(elts, Align::Left, slot_count()).len() as int;
            let center = zone_text(elts, Align::Center, slot_count()).len() as int;
            let right = zone_text(elts, Align::Right, slot_count()).len() as int;
            &&& line.len() == 13 + left + center + right
            &&& marker_at(line, 0) == Some(Align::Left)
            &&& marker_at(line, 4 + left) == Some(Align::Center)
            &&& marker_at(line, 8 + left + center) == Some(Align::Right)
        }),
{
    lemma_marker_bytes(Align::Left);
    lemma_marker_bytes(Align::Center);
    lemma_marker_bytes(Align::Right);
    lemma_line_feed();
    lemma_line_from(elts);
    let ml = utf8(zone_marker(Align::Left));
    let mc = utf8(zone_marker(Align::Center));
    let mr = utf8(zone_marker(Align::Right));
    let l = zone_text(elts, Align::Left, slot_count());
    let c = zone_text(elts, Align::Center, slot_count());
    let left = l.len() as int;
    let center = c.len() as int;
    assert(ml.subrange(0, 4) =~= ml);
    assert(mc.subrange(0, 4) =~= mc);
    assert(mr.subrange(0, 4) =~= mr);
    // the right marker, seen from ever further to the left
    lemma_stands_in_concat(mr, line_from_5(elts), 0, mr);
    lemma_stands_in_concat(c, line_from_4(elts), 0, mr);
    lemma_stands_in_concat(mc, line_from_3(elts), center, mr);
    lemma_stands_in_concat(l, line_from_2(elts), 4 + center, mr);
    lemma_stands_in_concat(ml, line_from_1(elts), 4 + left + center, mr);
    // the centre marker
    lemma_stands_in_concat(mc, line_from_3(elts), 0, mc);
    lemma_stands_in_concat(l, line_from_2(elts), 0, mc);
    lemma_stands_in_concat(ml, line_from_1(elts), left, mc);
    // the left marker
    lemma_stands_in_concat(ml, line_from_1(elts), 0, ml);
    // markers differ in their letter, so each place holds the one named
    assert(ml[2] != mc[2] && mc[2] != mr[2] && ml[2] != mr[2]);
}

/// The line that a registry makes holds three markers and no more, unless
/// the fragments of a zone, one after the other, themselves hold one: where
/// none of the three zones does, a marker stands at the start of the line,
/// right after the left zone and right after the centre zone, and nowhere
/// else.
pub proof fn lemma_three_markers(elts: Map<(Align, nat), Seq<u8>>)
    requires
        !holds_marker(zone_text(elts, Align::Left, slot_count())),
        !holds_marker(zone_text(elts, Align::Center, slot_count())),
        !holds_marker(zone_text(elts, Align::Right, slot_count())),
    ensures
        ({
            let line = rendered_line(elts);
            let left = zone_text(elts, Align::Left, slot_count()).len() as int;
            let center = zone_text(elts, Align::Center, slot_count()).len() as int;
            forall|i: int|
                (#[trigger] marker_at(line, i)) is Some <==> (i == 0 || i == 4 + left || i == 8
                    + left + center)
        }),
{
    lemma_markers_in_order(elts);
    let line = rendered_line(elts);
    let left = zone_text(elts, Align::Left, slot_count()).len() as int;
    let center = zone_text(elts, Align::Center, slot_count()).len() as int;
    assert forall|i: int| (#[trigger] marker_at(line, i)) is Some implies (i == 0 || i == 4 + left
        || i == 8 + left + center) by {
        lemma_no_fourth_marker(elts, i);
    }
}

/// A marker in a text without markers and what follows it, where what
/// follows begins with `%` or a line feed, stands in what follows.
proof fn lemma_marker_after_text(text: Seq<u8>, rest: Seq<u8>, i: int)
    requires
        marker_at(text + rest, i) is Some,
        !holds_marker(text),
        rest.len() > 0,
        rest[0] == 0x25 || rest[0] == 0x0a,
    ensures
        text.len() <= i,
        marker_at(rest, i - text.len()) is Some,
{
    lemma_marker_in_concat(text, rest, i);
}

/// A marker in a marker and what follows it is that marker, or stands in
/// what follows.
proof fn lemma_marker_after_marker(zone: Align, rest: Seq<u8>, i: int)
    requires
        marker_at(utf8(zone_marker(zone)) + rest, i) is Some,
    ensures
        i == 0 || (4 <= i && marker_at(rest, i - 4) is Some),
{
    lemma_marker_bytes(zone);
    lemma_marker_in_concat(utf8(zone_marker(zone)), rest, i);
}

/// No marker stands in a text without markers and the line feed after it.
proof fn lemma_no_marker_at_the_end(text: Seq<u8>, i: int)
    requires
        !holds_marker(text),
    ensures
        marker_at(text + utf8(seq!['\n']), i) is None,
{
    lemma_line_feed();
    let feed = utf8(seq!['\n']);
    if marker_at(text + feed, i) is Some {
        lemma_marker_after_text(text, feed, i);
        lemma_marker_shape(feed, i - text.len());
    }
}

/// Where no zone holds a marker in its fragments, a marker in the line is
/// one of the three that open the zones.
proof fn lemma_no_fourth_marker(elts: Map<(Align, nat), Seq<u8>>, i: int)
    requires
        !holds_marker(zone_text(elts, Align::Left, slot_count())),
        !holds_marker(zone_text(elts, Align::Center, slot_count())),
        !holds_marker(zone_text(elts, Align::Right, slot_count())),
        marker_at(rendered_line(elts), i) is Some,
    ensures
        i == 0 || i == 4 + zone_text(elts, Align::Left, slot_count()).len() || i == 8 + zone_text(
            elts,
            Align::Left,
            slot_count(),
        ).len() + zone_text(elts, Align::Center, slot_count()).len(),
{
    lemma_line_from(elts);
    let l = zone_text(elts, Align::Left, slot_count());
    let c = zone_text(elts, Align::Center, slot_count());
    let r = zone_text(elts, Align::Right, slot_count());
    lemma_marker_after_marker(Align::Left, line_from_1(elts), i);
    if i != 0 {
        let i1 = i - 4;
        lemma_first_byte(Align::Center, line_from_3(elts));
        lemma_marker_after_text(l, line_from_2(elts), i1);
        let i2 = i1 - l.len();
        lemma_marker_after_marker(Align::Center, line_from_3(elts), i2);
        if i2 != 0 {
            let i3 = i2 - 4;
            lemma_first_byte(Align::Right, line_from_5(elts));
            lemma_marker_after_text(c, line_from_4(elts), i3);
            let i4 = i3 - c.len();
            lemma_marker_after_marker(Align::Right, line_from_5(elts), i4);
            if i4 != 0 {
                lemma_no_marker_at_the_end(r, i4 - 4);
            }
        }
    }
}

/// A marker and what follows it begin with `%`.
proof fn lemma_first_byte(zone: Align, rest: Seq<u8>)
    ensures
        (utf8(zone_marker(zone)) + rest).len() > 0,
        (utf8(zone_marker(zone)) + rest)[0] == 0x25,
{
    lemma_marker_bytes(zone);
}

/// The fragments `elts` after the upserts `calls`, each a place and a
/// fragment, made in their order.
pub open spec fn upserted(
    elts: Map<(Align, nat), Seq<u8>>,
    calls: Seq<((Align, nat), Seq<u8>)>,
) -> Map<(Align, nat), Seq<u8>>
    decreases calls.len(),
{
    if calls.len() == 0 {
        elts
    } else {
        upserted(elts, calls.drop_last()).insert(calls.last().0, calls.last().1)
    }
}

/// An upsert at a place replaces what an earlier upsert put there: the
/// registry is as if the earlier one had not been made.
pub proof fn lemma_upsert_replaces(
    elts: Map<(Align, nat), Seq<u8>>,
    place: (Align, nat),
    earlier: Seq<u8>,
    later: Seq<u8>,
)
    ensures
        elts.insert(place, earlier).insert(place, later) == elts.insert(place, later),
{
}

/// After any upserts, a place holds the fragment of the last upsert that
/// named it, whole and with nothing added: the upsert `calls[i]` stands
/// where no later one names its place.
pub proof fn lemma_last_upsert_stands(
    elts: Map<(Align, nat), Seq<u8>>,
    calls: Seq<((Align, nat), Seq<u8>)>,
    i: int,
)
    requires
        0 <= i < calls.len(),
        forall|j: int| i < j < calls.len() ==> calls[j].0 != calls[i].0,
    ensures
        upserted(elts, calls).contains_key(calls[i].0),
        upserted(elts, calls)[calls[i].0] == calls[i].1,
    decreases calls.len(),
{
    if i < calls.len() - 1 {
        let earlier = calls.drop_last();
        assert forall|j: int| i < j < earlier.len() implies earlier[j].0 != earlier[i].0 by {
            assert(earlier[j] == calls[j] && earlier[i] == calls[i]);
        }
        lemma_last_upsert_stands(elts, earlier, i);
    }
}

/// After any upserts, a place that none of them names holds what it held
/// before.
pub proof fn lemma_upserts_leave_the_rest(
    elts: Map<(Align, nat), Seq<u8>>,
    calls: Seq<((Align, nat), Seq<u8>)>,
    place: (Align, nat),
)
    requires
        forall|j: int| 0 <= j < calls.len() ==> calls[j].0 != place,
    ensures
        upserted(elts, calls).contains_key(place) == elts.contains_key(place),
        elts.contains_key(place) ==> upserted(elts, calls)[place] == elts[place],
    decreases calls.len(),
{
    if calls.len() > 0 {
        let earlier = calls.drop_last();
        assert forall|j: int| 0 <= j < earlier.len() implies earlier[j].0 != place by {
            assert(earlier[j] == calls[j]);
        }
        lemma_upserts_leave_the_rest(elts, earlier, place);
    }
}

/// Whether the key `a` comes before the key `b`: by the zone's rank, then
/// by the slot.
spec fn key_before(a: (u8, usize), b: (u8, usize)) -> bool {
    a.0 < b.0 || (a.0 == b.0 && a.1 < b.1)
}

/// The key under which the fragment of `place` is kept.
spec fn key_of(place: (Align, nat)) -> (u8, usize) {
    (zone_rank(place.0) as u8, place.1 as usize)
}

/// Two places with slots that there are have the same key only where they
/// are the same place.
proof fn lemma_key_of_one_place(a: (Align, nat), b: (Align, nat))
    requires
        a.1 <= usize::MAX,
        b.1 <= usize::MAX,
        key_of(a) == key_of(b),
    ensures
        a == b,
{
}

/// Pairs of a rank and a slot are ordered as the map of the fragments needs
/// it.
proof fn lemma_keys_ordered()
    ensures
        vstd::laws_cmp::obeys_cmp::<(u8, usize)>(),
{
    broadcast use vstd::laws_cmp::group_laws_cmp;

}

/// Keys that go upwards go upwards by rank, then by slot.
proof fn lemma_increasing_keys(keys: Seq<(u8, usize)>)
    requires
        increasing_seq(keys),
    ensures
        forall|i: int, j: int| 0 <= i < j < keys.len() ==> key_before(keys[i], keys[j]),
{
    lemma_keys_ordered();
    assert forall|i: int, j: int| 0 <= i < j < keys.len() implies key_before(keys[i], keys[j]) by {
        assert(keys[i].cmp_spec(&keys[j]) is Less);
    }
}

/// Whether the entries `all` are the fragments `elts`, each once, in the
/// order of their keys.
spec fn in_key_order(
    all: Seq<(&(u8, usize), &Vec<u8>)>,
    elts: Map<(u8, usize), Vec<u8>>,
) -> bool {
    &&& forall|i: int, j: int| 0 <= i < j < all.len() ==> key_before(*all[i].0, *all[j].0)
    &&& forall|i: int|
        0 <= i < all.len() ==> elts.contains_key(*all[i].0) && elts[*all[i].0] == *all[i].1
    &&& forall|k: (u8, usize)|
        elts.contains_key(k) ==> exists|i: int| 0 <= i < all.len() && *all[i].0 == k
}

/// The index of the entry of `all` that has the key `k`.
spec fn entry_of(all: Seq<(&(u8, usize), &Vec<u8>)>, k: (u8, usize)) -> int {
    choose|i: int| 0 <= i < all.len() && *all[i].0 == k
}

/// The registry of the bar: for each place the fragment that was registered
/// there last.
pub struct Bar {
    elts: BTreeMap<(u8, usize), Vec<u8>>,
}

impl View for Bar {
    type V = Map<(Align, nat), Seq<u8>>;

    /// The fragment of each place that holds one.
    closed spec fn view(&self) -> Map<(Align, nat), Seq<u8>> {
        Map::new(
            |place: (Align, nat)| place.1 <= usize::MAX && self.elts@.contains_key(key_of(place)),
            |place: (Align, nat)| self.elts@[key_of(place)]@,
        )
    }
}

fn key(pos: Position) -> (key: (u8, usize))
    ensures
        key == key_of(pos@),
        pos@.1 <= usize::MAX,
{
    (pos.align().rank(), pos.slot())
}

impl Bar {
    /// A registry that holds no fragment.
    pub fn new() -> (bar: Bar)
        ensures
            bar@ == Map::<(Align, nat), Seq<u8>>::empty(),
    {
        let bar = Bar { elts: BTreeMap::new() };
        bar
    }

    /// Puts `fragment` at `pos`, in place of what stood there.
    pub fn upsert(&mut self, pos: Position, fragment: Vec<u8>)
        ensures
            final(self)@ == old(self)@.insert(pos@, fragment@),
    {
        proof {
            lemma_keys_ordered();
        }
        let ghost bytes = fragment@;
        self.elts.insert(key(pos), fragment);
        proof {
            let after = old(self)@.insert(pos@, bytes);
            assert forall|place: (Align, nat)| self@.contains_key(place) == after.contains_key(
                place,
            ) by {
                if place.1 <= usize::MAX && key_of(place) == key_of(pos@) {
                    lemma_key_of_one_place(place, pos@);
                }
            }
            assert forall|place: (Align, nat)| self@.contains_key(place) implies self@[place]
                == after[place] by {
                if key_of(place) == key_of(pos@) {
                    lemma_key_of_one_place(place, pos@);
                }
            }
        }
    }

    /// Renders `elt` and puts the fragment at `pos`, in place of what stood
    /// there. This succeeds where `elt` can be rendered, and only there;
    /// where it fails, the registry stays as it was.
    pub fn register<T: Format + ?Sized>(&mut self, pos: Position, elt: &T) -> (done: Result<
        (),
        Error,
    >)
        ensures
            done is Ok <==> elt.renders(),
            done is Ok ==> final(self)@ == old(self)@.insert(pos@, elt.rendered()),
            done is Err ==> final(self)@ == old(self)@,
    {
        let mut fmtr = Formatter::new();
        match elt.fmt(&mut fmtr) {
            Ok(()) => {
                self.upsert(pos, fmtr.into_bytes());
                Ok(())
            },
            Err(e) => Err(e),
        }
    }

    /// Takes away the fragment at `pos`, if one stands there.
    pub fn deregister(&mut self, pos: Position)
        ensures
            final(self)@ == old(self)@.remove(pos@),
    {
        proof {
            lemma_keys_ordered();
        }
        let at = key(pos);
        self.elts.remove(&at);
        proof {
            let after = old(self)@.remove(pos@);
            assert forall|place: (Align, nat)| self@.contains_key(place) == after.contains_key(
                place,
            ) by {
                if place.1 <= usize::MAX && key_of(place) == key_of(pos@) {
                    lemma_key_of_one_place(place, pos@);
                }
            }
        }
    }

    /// The fragment at `pos`, if one stands there.
    pub fn fragment(&self, pos: Position) -> (found: Option<&Vec<u8>>)
        ensures
            match found {
                Some(fragment) => self@.contains_key(pos@) && fragment@ == self@[pos@],
                None => !self@.contains_key(pos@),
            },
    {
        proof {
            lemma_keys_ordered();
        }
        let at = key(pos);
        self.elts.get(&at)
    }

    /// Writes the marker of `zone` and then its fragments at the end of `fmt`.
    fn write_zone(&self, fmt: &mut Formatter, zone: Align)
        ensures
            final(fmt)@ == old(fmt)@ + zone_line(self@, zone),
    {
        let _ = zone.fmt(fmt);
        let rank = zone.rank();
        proof {
            lemma_keys_ordered();
        }
        let entries = self.elts.iter();
        proof {
            let keys = entries.remaining().map_values(|kv: (&(u8, usize), &Vec<u8>)| *kv.0);
            lemma_increasing_keys(keys);
            assert forall|i: int, j: int| 0 <= i < j < keys.len() implies key_before(
                *entries.remaining()[i].0,
                *entries.remaining()[j].0,
            ) by {
                assert(key_before(keys[i], keys[j]));
            }
        }
        let ghost start = fmt@;
        // the slots of the zone below `done` are written
        let ghost mut done: nat = 0;
        for entry in it: entries
            invariant
                rank == zone_rank(zone),
                in_key_order(it.seq(), self.elts@),
                done <= slot_count(),
                fmt@ == start + zone_text(self@, zone, done),
                forall|i: int|
                    0 <= i < it.index() && it.seq()[i].0.0 == rank ==> it.seq()[i].0.1 < done,
                forall|i: int|
                    it.index() <= i < it.seq().len() && it.seq()[i].0.0 == rank ==> it.seq()[i].0.1
                        >= done,
        {
            let (at, fragment) = entry;
            if at.0 == rank {
                proof {
                    let here = it.index() as int;
                    let slot = at.1 as nat;
                    // no slot between `done` and this one holds a fragment
                    assert forall|free: nat| done <= free < slot implies !self@.contains_key(
                        (zone, free),
                    ) by {
                        if self@.contains_key((zone, free)) {
                            let i = entry_of(it.seq(), key_of((zone, free)));
                            if i > here {
                                assert(key_before(*it.seq()[here].0, *it.seq()[i].0));
                            }
                        }
                    }
                    lemma_zone_gap(self@, zone, done, slot);
                    assert forall|i: int|
                        here < i < it.seq().len() && it.seq()[i].0.0 == rank implies it.seq()[i].0.1
                        > slot by {
                        assert(key_before(*it.seq()[here].0, *it.seq()[i].0));
                    }
                    done = slot + 1;
                }
                fmt.write_bytes(fragment.as_slice());
            }
        }
        proof {
            // no slot from `done` on holds a fragment
            assert forall|free: nat| done <= free < slot_count() implies !self@.contains_key(
                (zone, free),
            ) by {
                if self@.contains_key((zone, free)) {
                    let i = entry_of(entries.remaining(), key_of((zone, free)));
                    assert(entries.remaining()[i].0.1 < done);
                }
            }
            lemma_zone_gap(self@, zone, done, slot_count());
        }
    }

    /// The line that the registered fragments make.
    pub fn render(&self) -> (line: Vec<u8>)
        ensures
            line@ == rendered_line(self@),
    {
        let mut fmt = Formatter::new();
        self.write_zone(&mut fmt, Align::Left);
        self.write_zone(&mut fmt, Align::Center);
        self.write_zone(&mut fmt, Align::Right);
        let _ = '\n'.fmt(&mut fmt);
        fmt.into_bytes()
    }
}

} // verus!
