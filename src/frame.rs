//! How the parser reads frames built from entries: the round trip.
use vstd::prelude::*;
use crate::decimal::decimal_u64;
use crate::raw_device::{
    action_of, apply_entry, empty_record, entries, entries_from, first_equals, parse_frame,
    RawDevView,
};
use crate::words::{
    action_key_at, field_of, first_action_key, key_action, key_busnum, key_devname, key_devnum,
    key_devpath, key_devtype, key_driver, key_seqnum, key_subsystem, Field, EQUALS, NUL,
};

verus! {

/// An entry: key, `=`, value.
pub open spec fn entry_bytes(k: Seq<u8>, v: Seq<u8>) -> Seq<u8> {
    k + seq![EQUALS] + v
}

/// The bytes of a frame body: each entry followed by a NUL byte.
pub open spec fn frame_of(es: Seq<Seq<u8>>) -> Seq<u8>
    decreases es.len(),
{
    if es.len() == 0 {
        Seq::empty()
    } else {
        es[0] + seq![NUL] + frame_of(es.drop_first())
    }
}

/// Reads the entries one after the other into the record.
pub open spec fn apply_entries(acc: RawDevView, es: Seq<Seq<u8>>) -> Option<RawDevView>
    decreases es.len(),
{
    if es.len() == 0 {
        Some(acc)
    } else {
        match apply_entry(acc, es[0]) {
            Some(a) => apply_entries(a, es.drop_first()),
            None => None,
        }
    }
}

pub open spec fn no_nul(s: Seq<u8>) -> bool {
    forall|k: int| 0 <= k < s.len() ==> #[trigger] s[k] != NUL
}

pub open spec fn no_equals(s: Seq<u8>) -> bool {
    forall|k: int| 0 <= k < s.len() ==> #[trigger] s[k] != EQUALS
}

/// Scanning up to the next NUL byte reads the entry that ends there.
proof fn lemma_scan_to_nul(s: Seq<u8>, start: int, i: int, j: int, acc: RawDevView)
    requires
        0 <= start <= i <= j < s.len(),
        s[j] == NUL,
        forall|k: int| i <= k < j ==> #[trigger] s[k] != NUL,
    ensures
        entries_from(s, start, i, acc) == (match apply_entry(acc, s.subrange(start, j)) {
            Some(a) => entries_from(s, j + 1, j + 1, a),
            None => None,
        }),
    decreases j - i,
{
    if i < j {
        lemma_scan_to_nul(s, start, i + 1, j, acc);
    }
}

/// An empty entry changes nothing.
proof fn lemma_empty_entry(acc: RawDevView)
    ensures
        apply_entry(acc, Seq::empty()) == Some(acc),
{
    assert(!exists|e: int| first_equals(Seq::<u8>::empty(), e));
}

proof fn lemma_frame_of_cons(es: Seq<Seq<u8>>)
    requires
        es.len() > 0,
    ensures
        frame_of(es) == es[0] + seq![NUL] + frame_of(es.drop_first()),
{
}

/// Reading a frame body reads its entries in order.
proof fn lemma_entries_of_frame(p: Seq<u8>, es: Seq<Seq<u8>>, acc: RawDevView)
    requires
        forall|k: int| 0 <= k < es.len() ==> no_nul(#[trigger] es[k]),
    ensures
        entries_from(p + frame_of(es), p.len() as int, p.len() as int, acc) == apply_entries(
            acc,
            es,
        ),
    decreases es.len(),
{
    let s = p + frame_of(es);
    if es.len() == 0 {
        assert(s =~= p);
        assert(s.subrange(p.len() as int, s.len() as int) =~= Seq::<u8>::empty());
        lemma_empty_entry(acc);
    } else {
        let e = es[0];
        let rest = es.drop_first();
        let p2 = p + e + seq![NUL];
        lemma_frame_of_cons(es);
        assert(s =~= p2 + frame_of(rest));
        let j: int = (p.len() + e.len()) as int;
        assert(no_nul(e));
        assert forall|k: int| p.len() <= k < j implies #[trigger] s[k] != NUL by {
            assert(s[k] == e[k - p.len()]);
        }
        assert(s[j] == NUL);
        lemma_scan_to_nul(s, p.len() as int, p.len() as int, j, acc);
        assert(s.subrange(p.len() as int, j) =~= e);
        assert forall|k: int| 0 <= k < rest.len() implies no_nul(#[trigger] rest[k]) by {
            assert(rest[k] == es[k + 1]);
        }
        match apply_entry(acc, e) {
            Some(a) => {
                lemma_entries_of_frame(p2, rest, a);
                assert(p2.len() == j + 1);
            },
            None => {},
        }
    }
}

/// An entry whose key holds no `=` splits at the end of the key.
proof fn lemma_entry_split(k: Seq<u8>, v: Seq<u8>)
    requires
        no_equals(k),
    ensures
        first_equals(entry_bytes(k, v), k.len() as int),
        (choose|e: int| first_equals(entry_bytes(k, v), e)) == k.len() as int,
        entry_bytes(k, v).subrange(0, k.len() as int) == k,
        entry_bytes(k, v).subrange((k.len() + 1) as int, entry_bytes(k, v).len() as int) == v,
{
    let t = entry_bytes(k, v);
    assert forall|x: int| 0 <= x < k.len() implies #[trigger] t[x] != EQUALS by {
        assert(t[x] == k[x]);
    }
    assert(first_equals(t, k.len() as int));
    let e = choose|e: int| first_equals(t, e);
    if e < k.len() {
        assert(t[e] == k[e]);
    } else if e > k.len() {
        assert(t[k.len() as int] == EQUALS);
    }
    assert(t.subrange(0, k.len() as int) =~= k);
    assert(t.subrange((k.len() + 1) as int, t.len() as int) =~= v);
}

/// The entries of a frame that sets every field the parser reads.
pub open spec fn full_entries(
    verb: Seq<u8>,
    devpath: Seq<u8>,
    subsystem: Seq<u8>,
    devname: Seq<u8>,
    devtype: Seq<u8>,
    busnum: Seq<u8>,
    devnum: Seq<u8>,
    driver: Seq<u8>,
    seqnum: Seq<u8>,
) -> Seq<Seq<u8>> {
    seq![
        entry_bytes(key_action(), verb),
        entry_bytes(key_devpath(), devpath),
        entry_bytes(key_subsystem(), subsystem),
        entry_bytes(key_devname(), devname),
        entry_bytes(key_devtype(), devtype),
        entry_bytes(key_busnum(), busnum),
        entry_bytes(key_devnum(), devnum),
        entry_bytes(key_driver(), driver),
        entry_bytes(key_seqnum(), seqnum),
    ]
}

/// The record that a frame setting every field holds.
pub open spec fn full_record(
    verb: Seq<u8>,
    devpath: Seq<u8>,
    subsystem: Seq<u8>,
    devname: Seq<u8>,
    devtype: Seq<u8>,
    busnum: Seq<u8>,
    devnum: Seq<u8>,
    driver: Seq<u8>,
    seqnum: Seq<u8>,
) -> RawDevView {
    RawDevView {
        action: action_of(verb),
        devpath: Some(devpath),
        subsystem: Some(subsystem),
        devname: Some(devname),
        devtype: Some(devtype),
        bus_num: Some(busnum),
        devnum: decimal_u64(devnum),
        driver: Some(driver),
        seqnum: decimal_u64(seqnum),
    }
}

/// Which field each key names; no key holds `=`.
proof fn lemma_keys()
    ensures
        field_of(key_action()) == Field::Action,
        field_of(key_devpath()) == Field::DevPath,
        field_of(key_subsystem()) == Field::Subsystem,
        field_of(key_devname()) == Field::DevName,
        field_of(key_devtype()) == Field::DevType,
        field_of(key_busnum()) == Field::BusNum,
        field_of(key_devnum()) == Field::DevNum,
        field_of(key_driver()) == Field::Driver,
        field_of(key_seqnum()) == Field::SeqNum,
        no_equals(key_action()),
        no_equals(key_devpath()),
        no_equals(key_subsystem()),
        no_equals(key_devname()),
        no_equals(key_devtype()),
        no_equals(key_busnum()),
        no_equals(key_devnum()),
        no_equals(key_driver()),
        no_equals(key_seqnum()),
{
    assert(key_action()[0] != key_busnum()[0]);
    assert(key_action()[0] != key_devnum()[0]);
    assert(key_action()[0] != key_driver()[0]);
    assert(key_action()[0] != key_seqnum()[0]);
    assert(key_devpath()[3] != key_devname()[3]);
    assert(key_devpath()[3] != key_devtype()[3]);
    assert(key_devname()[3] != key_devtype()[3]);
    assert(key_busnum()[0] != key_devnum()[0]);
    assert(key_busnum()[0] != key_driver()[0]);
    assert(key_busnum()[0] != key_seqnum()[0]);
    assert(key_devnum()[1] != key_driver()[1]);
    assert(key_devnum()[0] != key_seqnum()[0]);
    assert(key_driver()[0] != key_seqnum()[0]);
    assert forall|k: int| 0 <= k < key_action().len() implies #[trigger] key_action()[k] != EQUALS by {}
    assert forall|k: int| 0 <= k < key_devpath().len() implies #[trigger] key_devpath()[k] != EQUALS by {}
    assert forall|k: int| 0 <= k < key_subsystem().len() implies #[trigger] key_subsystem()[k] != EQUALS by {}
    assert forall|k: int| 0 <= k < key_devname().len() implies #[trigger] key_devname()[k] != EQUALS by {}
    assert forall|k: int| 0 <= k < key_devtype().len() implies #[trigger] key_devtype()[k] != EQUALS by {}
    assert forall|k: int| 0 <= k < key_busnum().len() implies #[trigger] key_busnum()[k] != EQUALS by {}
    assert forall|k: int| 0 <= k < key_devnum().len() implies #[trigger] key_devnum()[k] != EQUALS by {}
    assert forall|k: int| 0 <= k < key_driver().len() implies #[trigger] key_driver()[k] != EQUALS by {}
    assert forall|k: int| 0 <= k < key_seqnum().len() implies #[trigger] key_seqnum()[k] != EQUALS by {}
}

proof fn lemma_entry_no_nul(k: Seq<u8>, v: Seq<u8>)
    requires
        no_nul(k),
        no_nul(v),
    ensures
        no_nul(entry_bytes(k, v)),
{
    let t = entry_bytes(k, v);
    assert forall|x: int| 0 <= x < t.len() implies #[trigger] t[x] != NUL by {
        if x < k.len() {
            assert(t[x] == k[x]);
        } else if x > k.len() {
            assert(t[x] == v[x - k.len() - 1]);
        }
    }
}

/// A frame that starts with `ACTION` holds the record of all its entries.
proof fn lemma_frame_starting_with_action(f: Seq<u8>)
    requires
        action_key_at(f, 0),
    ensures
        parse_frame(f) == entries(f),
{
    assert(first_action_key(f, 0));
    let i = choose|i: int| first_action_key(f, i);
    if i > 0 {
        assert(!action_key_at(f, 0));
    }
    assert(f.subrange(0, f.len() as int) =~= f);
}

/// Round trip: a frame of `KEY=VALUE` entries, each ended by NUL, that sets
/// every field, parses to the record of those values. The verb must be one
/// of the five actions, the two numbers decimal, and no value may hold a
/// NUL byte.
pub proof fn lemma_frame_round_trip(
    verb: Seq<u8>,
    devpath: Seq<u8>,
    subsystem: Seq<u8>,
    devname: Seq<u8>,
    devtype: Seq<u8>,
    busnum: Seq<u8>,
    devnum: Seq<u8>,
    driver: Seq<u8>,
    seqnum: Seq<u8>,
)
    requires
        action_of(verb) is Some,
        decimal_u64(devnum) is Some,
        decimal_u64(seqnum) is Some,
        no_nul(verb),
        no_nul(devpath),
        no_nul(subsystem),
        no_nul(devname),
        no_nul(devtype),
        no_nul(busnum),
        no_nul(devnum),
        no_nul(driver),
        no_nul(seqnum),
    ensures
        parse_frame(
            frame_of(
                full_entries(verb, devpath, subsystem, devname, devtype, busnum, devnum, driver, seqnum),
            ),
        ) == Some(full_record(verb, devpath, subsystem, devname, devtype, busnum, devnum, driver, seqnum)),
{
    let es = full_entries(verb, devpath, subsystem, devname, devtype, busnum, devnum, driver, seqnum);
    let f = frame_of(es);
    lemma_keys();
    assert forall|k: int| 0 <= k < key_action().len() implies #[trigger] key_action()[k] != NUL by {}
    assert forall|k: int| 0 <= k < key_devpath().len() implies #[trigger] key_devpath()[k] != NUL by {}
    assert forall|k: int| 0 <= k < key_subsystem().len() implies #[trigger] key_subsystem()[k] != NUL by {}
    assert forall|k: int| 0 <= k < key_devname().len() implies #[trigger] key_devname()[k] != NUL by {}
    assert forall|k: int| 0 <= k < key_devtype().len() implies #[trigger] key_devtype()[k] != NUL by {}
    assert forall|k: int| 0 <= k < key_busnum().len() implies #[trigger] key_busnum()[k] != NUL by {}
    assert forall|k: int| 0 <= k < key_devnum().len() implies #[trigger] key_devnum()[k] != NUL by {}
    assert forall|k: int| 0 <= k < key_driver().len() implies #[trigger] key_driver()[k] != NUL by {}
    assert forall|k: int| 0 <= k < key_seqnum().len() implies #[trigger] key_seqnum()[k] != NUL by {}
    lemma_entry_no_nul(key_action(), verb);
    lemma_entry_no_nul(key_devpath(), devpath);
    lemma_entry_no_nul(key_subsystem(), subsystem);
    lemma_entry_no_nul(key_devname(), devname);
    lemma_entry_no_nul(key_devtype(), devtype);
    lemma_entry_no_nul(key_busnum(), busnum);
    lemma_entry_no_nul(key_devnum(), devnum);
    lemma_entry_no_nul(key_driver(), driver);
    lemma_entry_no_nul(key_seqnum(), seqnum);
    assert forall|k: int| 0 <= k < es.len() implies no_nul(#[trigger] es[k]) by {}
    // the frame starts with the action key
    lemma_frame_of_cons(es);
    assert(f.subrange(0, 6) =~= key_action()) by {
        assert forall|x: int| 0 <= x < 6 implies f[x] == key_action()[x] by {
            assert(f[x] == es[0][x]);
            assert(es[0][x] == key_action()[x]);
        }
    }
    lemma_frame_starting_with_action(f);
    lemma_entries_of_frame(Seq::empty(), es, empty_record());
    assert(Seq::<u8>::empty() + f =~= f);
    // each entry sets its field
    lemma_entry_split(key_action(), verb);
    lemma_entry_split(key_devpath(), devpath);
    lemma_entry_split(key_subsystem(), subsystem);
    lemma_entry_split(key_devname(), devname);
    lemma_entry_split(key_devtype(), devtype);
    lemma_entry_split(key_busnum(), busnum);
    lemma_entry_split(key_devnum(), devnum);
    lemma_entry_split(key_driver(), driver);
    lemma_entry_split(key_seqnum(), seqnum);
    reveal_with_fuel(apply_entries, 10);
    assert(es.drop_first()[0] == es[1]);
    assert(es.drop_first().drop_first()[0] == es[2]);
    assert(es.drop_first().drop_first().drop_first()[0] == es[3]);
    assert(es.drop_first().drop_first().drop_first().drop_first()[0] == es[4]);
    assert(es.drop_first().drop_first().drop_first().drop_first().drop_first()[0] == es[5]);
    assert(es.drop_first().drop_first().drop_first().drop_first().drop_first().drop_first()[0]
        == es[6]);
    assert(es.drop_first().drop_first().drop_first().drop_first().drop_first().drop_first().drop_first()[0]
        == es[7]);
    assert(es.drop_first().drop_first().drop_first().drop_first().drop_first().drop_first().drop_first().drop_first()[0]
        == es[8]);
    assert(es.drop_first().drop_first().drop_first().drop_first().drop_first().drop_first().drop_first().drop_first().drop_first().len()
        == 0);
}

/// Bytes before the first `ACTION` do not matter: a frame that starts with
/// `ACTION`, after any bytes in which no `ACTION` starts, parses to the same
/// record as the frame alone.
pub proof fn lemma_leading_bytes_skipped(g: Seq<u8>, f: Seq<u8>)
    requires
        action_key_at(f, 0),
        forall|i: int| 0 <= i < g.len() ==> !#[trigger] action_key_at(g + f, i),
    ensures
        parse_frame(g + f) == parse_frame(f),
{
    let s = g + f;
    assert(s.subrange(g.len() as int, (g.len() + 6) as int) =~= f.subrange(0, 6));
    assert(action_key_at(s, g.len() as int));
    assert(first_action_key(s, g.len() as int));
    let i = choose|i: int| first_action_key(s, i);
    if i < g.len() {
        assert(!action_key_at(s, i));
    } else if i > g.len() {
        assert(!action_key_at(s, g.len() as int));
    }
    assert(s.subrange(g.len() as int, s.len() as int) =~= f);
    lemma_frame_starting_with_action(f);
}

/// Round trip of the shortest reported frame, `ACTION=<verb>` then
/// `DEVPATH=<path>`, each ended by NUL: the record holds the action and the
/// path and nothing else.
pub proof fn lemma_action_path_round_trip(verb: Seq<u8>, path: Seq<u8>)
    requires
        action_of(verb) is Some,
        no_nul(verb),
        no_nul(path),
    ensures
        parse_frame(
            frame_of(seq![entry_bytes(key_action(), verb), entry_bytes(key_devpath(), path)]),
        ) == Some(RawDevView { action: action_of(verb), devpath: Some(path), ..empty_record() }),
{
    let es = seq![entry_bytes(key_action(), verb), entry_bytes(key_devpath(), path)];
    let f = frame_of(es);
    lemma_keys();
    assert forall|k: int| 0 <= k < key_action().len() implies #[trigger] key_action()[k] != NUL by {}
    assert forall|k: int| 0 <= k < key_devpath().len() implies #[trigger] key_devpath()[k] != NUL by {}
    lemma_entry_no_nul(key_action(), verb);
    lemma_entry_no_nul(key_devpath(), path);
    assert forall|k: int| 0 <= k < es.len() implies no_nul(#[trigger] es[k]) by {}
    lemma_frame_of_cons(es);
    assert(f.subrange(0, 6) =~= key_action()) by {
        assert forall|x: int| 0 <= x < 6 implies f[x] == key_action()[x] by {
            assert(f[x] == es[0][x]);
            assert(es[0][x] == key_action()[x]);
        }
    }
    lemma_frame_starting_with_action(f);
    lemma_entries_of_frame(Seq::empty(), es, empty_record());
    assert(Seq::<u8>::empty() + f =~= f);
    lemma_entry_split(key_action(), verb);
    lemma_entry_split(key_devpath(), path);
    reveal_with_fuel(apply_entries, 3);
    assert(es.drop_first()[0] == es[1]);
    assert(es.drop_first().drop_first().len() == 0);
}

/// A frame that sets every field, received after header bytes in which no
/// `ACTION` starts, parses to the record of its values.
pub proof fn lemma_round_trip_after_header(
    header: Seq<u8>,
    verb: Seq<u8>,
    devpath: Seq<u8>,
    subsystem: Seq<u8>,
    devname: Seq<u8>,
    devtype: Seq<u8>,
    busnum: Seq<u8>,
    devnum: Seq<u8>,
    driver: Seq<u8>,
    seqnum: Seq<u8>,
)
    requires
        action_of(verb) is Some,
        decimal_u64(devnum) is Some,
        decimal_u64(seqnum) is Some,
        no_nul(verb),
        no_nul(devpath),
        no_nul(subsystem),
        no_nul(devname),
        no_nul(devtype),
        no_nul(busnum),
        no_nul(devnum),
        no_nul(driver),
        no_nul(seqnum),
        forall|i: int|
            0 <= i < header.len() ==> !#[trigger] action_key_at(
                header + frame_of(
                    full_entries(verb, devpath, subsystem, devname, devtype, busnum, devnum, driver, seqnum),
                ),
                i,
            ),
    ensures
        parse_frame(
            header + frame_of(
                full_entries(verb, devpath, subsystem, devname, devtype, busnum, devnum, driver, seqnum),
            ),
        ) == Some(full_record(verb, devpath, subsystem, devname, devtype, busnum, devnum, driver, seqnum)),
{
    let es = full_entries(verb, devpath, subsystem, devname, devtype, busnum, devnum, driver, seqnum);
    let f = frame_of(es);
    lemma_frame_round_trip(verb, devpath, subsystem, devname, devtype, busnum, devnum, driver, seqnum);
    lemma_frame_of_cons(es);
    assert(f.subrange(0, 6) =~= key_action()) by {
        assert forall|x: int| 0 <= x < 6 implies f[x] == key_action()[x] by {
            assert(f[x] == es[0][x]);
            assert(es[0][x] == key_action()[x]);
        }
    }
    lemma_leading_bytes_skipped(header, f);
}

} // verus!
