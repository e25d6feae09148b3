//! Stream entry identifiers: the two-part `<time>-<sequence>` id, its
//! successor and predecessor, and verified decimal formatting and parsing.

use vstd::prelude::*;

use crate::CoreError;

verus! {

/// Largest value the sequence component of an entry id may hold; the
/// successor of an id with this sequence value rolls over to the next
/// time value with sequence zero.
pub const MAX_SEQUENCE: u64 = 61;

/// The character for a single decimal digit.
pub open spec fn digit_char(d: nat) -> char
    recommends
        d < 10,
{
    if d == 0 {
        '0'
    } else if d == 1 {
        '1'
    } else if d == 2 {
        '2'
    } else if d == 3 {
        '3'
    } else if d == 4 {
        '4'
    } else if d == 5 {
        '5'
    } else if d == 6 {
        '6'
    } else if d == 7 {
        '7'
    } else if d == 8 {
        '8'
    } else {
        '9'
    }
}

/// Canonical decimal representation of a natural number (no sign, no
/// leading zeros except for zero itself).
pub open spec fn dec_rep(n: nat) -> Seq<char>
    decreases n,
{
    if n < 10 {
        seq![digit_char(n)]
    } else {
        dec_rep(n / 10) + seq![digit_char(n % 10)]
    }
}

/// Whether a character is a decimal digit.
pub open spec fn is_digit(c: char) -> bool {
    48 <= c as u32 <= 57
}

/// Numeric value of a digit character.
pub open spec fn digit_val(c: char) -> nat
    recommends
        is_digit(c),
{
    (c as u32 - 48) as nat
}

/// Value of a sequence of decimal digits, most significant first.
pub open spec fn dec_value(s: Seq<char>) -> nat
    decreases s.len(),
{
    if s.len() == 0 {
        0
    } else {
        dec_value(s.drop_last()) * 10 + digit_val(s.last())
    }
}

/// A one-character string for a single decimal digit.
fn digit_str(d: u64) -> (r: &'static str)
    requires
        d < 10,
    ensures
        r@ =~= seq![digit_char(d as nat)],
{
    proof {
        reveal_strlit("0");
        reveal_strlit("1");
        reveal_strlit("2");
        reveal_strlit("3");
        reveal_strlit("4");
        reveal_strlit("5");
        reveal_strlit("6");
        reveal_strlit("7");
        reveal_strlit("8");
        reveal_strlit("9");
    }
    match d {
        0 => "0",
        1 => "1",
        2 => "2",
        3 => "3",
        4 => "4",
        5 => "5",
        6 => "6",
        7 => "7",
        8 => "8",
        _ => "9",
    }
}

/// Format a number in canonical decimal.
pub fn u64_to_dec(n: u64) -> (r: String)
    ensures
        r@ == dec_rep(n as nat),
    decreases n,
{
    if n < 10 {
        String::from_str(digit_str(n))
    } else {
        let mut s = u64_to_dec(n / 10);
        s.append(digit_str(n % 10));
        assert(s@ =~= dec_rep(n as nat));
        s
    }
}

/// All characters of `s` are decimal digits.
pub open spec fn all_digits(s: Seq<char>) -> bool {
    forall|i: int| 0 <= i < s.len() ==> is_digit(#[trigger] s[i])
}

proof fn lemma_dec_value_step(s: Seq<char>, i: int)
    requires
        0 <= i < s.len(),
    ensures
        dec_value(s.take(i + 1)) == dec_value(s.take(i)) * 10 + digit_val(s[i]),
{
    assert(s.take(i + 1).drop_last() =~= s.take(i));
    assert(s.take(i + 1).last() == s[i]);
}

proof fn lemma_dec_value_mono(s: Seq<char>, i: int, j: int)
    requires
        0 <= i <= j <= s.len(),
    ensures
        dec_value(s.take(i)) <= dec_value(s.take(j)),
    decreases j - i,
{
    if i < j {
        lemma_dec_value_mono(s, i, j - 1);
        lemma_dec_value_step(s, j - 1);
    }
}

/// Parse the digits of `s` between positions `from` (inclusive) and `to`
/// (exclusive) as a decimal number, rejecting an empty range, a non-digit
/// character, and a value that does not fit in a machine word.
fn parse_dec_segment(s: &str, from: usize, to: usize) -> (r: Option<u64>)
    requires
        from <= to <= s@.len(),
    ensures
        r is Some <==> (from < to && all_digits(s@.subrange(from as int, to as int))
            && dec_value(s@.subrange(from as int, to as int)) <= u64::MAX),
        r matches Some(v) ==> v as nat == dec_value(s@.subrange(from as int, to as int)),
{
    let ghost sub = s@.subrange(from as int, to as int);
    if from == to {
        return None;
    }
    let mut i = from;
    let mut acc: u64 = 0;
    while i < to
        invariant
            from <= i <= to <= s@.len(),
            sub == s@.subrange(from as int, to as int),
            all_digits(sub.take(i - from)),
            acc as nat == dec_value(sub.take(i - from)),
        decreases to - i,
    {
        let c = s.get_char(i);
        assert(c == sub[i - from]);
        let cv = c as u32;
        if cv < 48 || cv > 57 {
            assert(!is_digit(sub[i - from]));
            return None;
        }
        let d = (cv - 48) as u64;
        proof {
            lemma_dec_value_step(sub, i - from);
            assert((u64::MAX - d) as nat / 10 * 10 + (u64::MAX - d) as nat % 10
                == (u64::MAX - d) as nat && (u64::MAX - d) as nat % 10 < 10)
                by (nonlinear_arith);
        }
        if acc > (u64::MAX - d) / 10 {
            proof {
                assert(acc as nat * 10 + d as nat > u64::MAX) by (nonlinear_arith)
                    requires
                        acc as nat > (u64::MAX - d) as nat / 10,
                        (u64::MAX - d) as nat / 10 * 10 + (u64::MAX - d) as nat % 10
                            == (u64::MAX - d) as nat,
                        (u64::MAX - d) as nat % 10 < 10,
                        d < 10,
                ;
                lemma_dec_value_mono(sub, i - from + 1, sub.len() as int);
                assert(sub.take(sub.len() as int) =~= sub);
            }
            return None;
        }
        proof {
            assert(acc as nat * 10 + d as nat <= u64::MAX) by (nonlinear_arith)
                requires
                    acc as nat <= (u64::MAX - d) as nat / 10,
                    (u64::MAX - d) as nat / 10 * 10 + (u64::MAX - d) as nat % 10
                        == (u64::MAX - d) as nat,
                    d < 10,
            ;
        }
        acc = acc * 10 + d;
        i = i + 1;
    }
    assert(sub.take(to - from) =~= sub);
    Some(acc)
}

/// `s` splits at position `i` into a nonempty digit run, a dash, and a
/// second nonempty digit run.
pub open spec fn id_split_at(s: Seq<char>, i: int) -> bool {
    &&& 1 <= i <= s.len() - 2
    &&& s[i] == '-'
    &&& all_digits(s.subrange(0, i))
    &&& all_digits(s.subrange(i + 1, s.len() as int))
}

/// `s` has the canonical `<time>-<sequence>` shape: two nonempty digit
/// runs separated by a single dash.
pub open spec fn well_formed_id(s: Seq<char>) -> bool {
    exists|i: int| id_split_at(s, i)
}

proof fn lemma_split_unique(s: Seq<char>, i: int, j: int)
    requires
        id_split_at(s, i),
        id_split_at(s, j),
    ensures
        i == j,
{
    if i < j {
        assert(is_digit(s.subrange(i + 1, s.len() as int)[j - i - 1]));
    }
    if j < i {
        assert(is_digit(s.subrange(j + 1, s.len() as int)[i - j - 1]));
    }
}

/// Position of the dash of a well-formed id string.
pub open spec fn id_dash(s: Seq<char>) -> int {
    choose|i: int| id_split_at(s, i)
}

/// Time component of a well-formed id string.
pub open spec fn id_time_of(s: Seq<char>) -> nat {
    dec_value(s.subrange(0, id_dash(s)))
}

/// Sequence component of a well-formed id string.
pub open spec fn id_seq_of(s: Seq<char>) -> nat {
    dec_value(s.subrange(id_dash(s) + 1, s.len() as int))
}

/// Canonical textual form of a (time, sequence) pair.
pub open spec fn id_rep(t: nat, q: nat) -> Seq<char> {
    dec_rep(t) + seq!['-'] + dec_rep(q)
}

/// A stream entry id: ordered pair of a time component and a bounded
/// sequence component.
#[derive(Clone, Copy, PartialEq, Eq, Structural, Debug)]
pub struct EntryId {
    pub time: u64,
    pub seq: u64,
}

/// Successor of a (time, sequence) pair: the sequence component steps
/// forward, rolling over into the time component past its maximum.
pub open spec fn succ_pair(t: nat, q: nat) -> (nat, nat) {
    if q == MAX_SEQUENCE as nat {
        ((t + 1) as nat, 0 as nat)
    } else {
        (t, (q + 1) as nat)
    }
}

/// Predecessor of a (time, sequence) pair: the sequence component steps
/// back, borrowing from the time component at zero.
pub open spec fn pred_pair(t: nat, q: nat) -> (nat, nat)
    recommends
        t > 0 || q > 0,
{
    if q == 0 {
        ((t - 1) as nat, MAX_SEQUENCE as nat)
    } else {
        (t, (q - 1) as nat)
    }
}

impl EntryId {
    /// The sequence component stays within its configured maximum.
    pub open spec fn wf(self) -> bool {
        self.seq <= MAX_SEQUENCE
    }

    /// The id one step after `self`.
    pub fn successor(&self) -> (r: EntryId)
        requires
            self.wf(),
            self.seq == MAX_SEQUENCE ==> self.time < u64::MAX,
        ensures
            r.wf(),
            (r.time as nat, r.seq as nat) == succ_pair(self.time as nat, self.seq as nat),
    {
        if self.seq == MAX_SEQUENCE {
            EntryId { time: self.time + 1, seq: 0 }
        } else {
            EntryId { time: self.time, seq: self.seq + 1 }
        }
    }

    /// The id one step before `self`.
    pub fn predecessor(&self) -> (r: EntryId)
        requires
            self.wf(),
            self.time > 0 || self.seq > 0,
        ensures
            r.wf(),
            (r.time as nat, r.seq as nat) == pred_pair(self.time as nat, self.seq as nat),
    {
        if self.seq == 0 {
            EntryId { time: self.time - 1, seq: MAX_SEQUENCE }
        } else {
            EntryId { time: self.time, seq: self.seq - 1 }
        }
    }

    /// Canonical textual form `<time>-<sequence>`.
    pub fn to_id_string(&self) -> (r: String)
        ensures
            r@ == id_rep(self.time as nat, self.seq as nat),
    {
        proof {
            reveal_strlit("-");
        }
        let mut s = u64_to_dec(self.time);
        s.append("-");
        let tail = u64_to_dec(self.seq);
        let s = s.concat(tail.as_str());
        assert(("-")@ =~= seq!['-']);
        assert(s@ =~= id_rep(self.time as nat, self.seq as nat));
        s
    }
}

/// Parse the canonical `<time>-<sequence>` textual form of an entry id.
/// Fails with `MalformedId` unless the string is two nonempty digit runs
/// separated by one dash, each fitting in a machine word.
pub fn parse_entry_id(s: &str) -> (r: Result<EntryId, CoreError>)
    ensures
        r is Ok <==> (well_formed_id(s@) && id_time_of(s@) <= u64::MAX
            && id_seq_of(s@) <= u64::MAX),
        r matches Ok(id) ==> id.time as nat == id_time_of(s@) && id.seq as nat == id_seq_of(s@),
        r matches Err(e) ==> e == CoreError::MalformedId,
{
    let len = s.unicode_len();
    let mut j: usize = 0;
    while j < len && s.get_char(j) != '-'
        invariant
            j <= len == s@.len(),
            forall|k: int| 0 <= k < j ==> s@[k] != '-',
        decreases len - j,
    {
        j = j + 1;
    }
    if j == len {
        proof {
            if well_formed_id(s@) {
                let k = id_dash(s@);
                assert(id_split_at(s@, k));
            }
        }
        return Err(CoreError::MalformedId);
    }
    let time_part = parse_dec_segment(s, 0, j);
    let seq_part = parse_dec_segment(s, j + 1, len);
    proof {
        if well_formed_id(s@) {
            let k = id_dash(s@);
            assert(id_split_at(s@, k));
            if k < j {
                assert(s@[k] == '-');
            }
            if j < k {
                assert(is_digit(s@.subrange(0, k)[j as int]));
            }
            assert(k == j);
        }
    }
    match (time_part, seq_part) {
        (Some(tv), Some(qv)) => {
            proof {
                assert(id_split_at(s@, j as int));
                let k = id_dash(s@);
                lemma_split_unique(s@, j as int, k);
            }
            Ok(EntryId { time: tv, seq: qv })
        },
        _ => Err(CoreError::MalformedId),
    }
}

/// The canonical decimal representation is a nonempty run of digits.
pub proof fn lemma_dec_rep_digits(n: nat)
    ensures
        all_digits(dec_rep(n)),
        dec_rep(n).len() >= 1,
    decreases n,
{
    if n >= 10 {
        lemma_dec_rep_digits(n / 10);
        assert forall|i: int| 0 <= i < dec_rep(n).len() implies is_digit(#[trigger] dec_rep(n)[i]) by {
            if i < dec_rep(n / 10).len() {
                assert(dec_rep(n)[i] == dec_rep(n / 10)[i]);
            }
        }
    }
}

proof fn lemma_dec_rep_value(n: nat)
    ensures
        dec_value(dec_rep(n)) == n,
    decreases n,
{
    if n < 10 {
        assert(dec_rep(n).drop_last() =~= Seq::<char>::empty());
        assert(dec_rep(n).last() == digit_char(n));
        assert(digit_val(digit_char(n)) == n);
        assert(dec_value(Seq::<char>::empty()) == 0);
        assert(dec_value(dec_rep(n)) == n);
    } else {
        lemma_dec_rep_value(n / 10);
        assert(dec_rep(n).drop_last() =~= dec_rep(n / 10));
        assert(dec_rep(n).last() == digit_char(n % 10));
        assert(digit_val(digit_char(n % 10)) == n % 10);
        assert(n / 10 * 10 + n % 10 == n) by (nonlinear_arith);
        assert(dec_value(dec_rep(n)) == n);
    }
}

/// Parsing inverts formatting: the canonical text of a (time, sequence)
/// pair is well formed and parses back to the same pair.
pub proof fn lemma_id_rep_parse(t: nat, q: nat)
    ensures
        well_formed_id(id_rep(t, q)),
        id_time_of(id_rep(t, q)) == t,
        id_seq_of(id_rep(t, q)) == q,
{
    let s = id_rep(t, q);
    let i = dec_rep(t).len() as int;
    lemma_dec_rep_digits(t);
    lemma_dec_rep_digits(q);
    assert(s[i] == '-');
    assert(s.subrange(0, i) =~= dec_rep(t));
    assert(s.subrange(i + 1, s.len() as int) =~= dec_rep(q));
    assert(id_split_at(s, i));
    let k = id_dash(s);
    assert(id_split_at(s, k));
    lemma_split_unique(s, i, k);
    lemma_dec_rep_value(t);
    lemma_dec_rep_value(q);
}

/// Law: the predecessor of the successor of a valid id is the id itself.
pub proof fn lemma_predecessor_of_successor(t: nat, q: nat)
    requires
        q <= MAX_SEQUENCE,
    ensures
        pred_pair(succ_pair(t, q).0, succ_pair(t, q).1) == (t, q),
{
}

/// Law: the successor of the predecessor of a valid id is the id itself,
/// except at the zero boundary, where no predecessor exists.
pub proof fn lemma_successor_of_predecessor(t: nat, q: nat)
    requires
        q <= MAX_SEQUENCE,
        t > 0 || q > 0,
    ensures
        succ_pair(pred_pair(t, q).0, pred_pair(t, q).1) == (t, q),
{
}

/// Law: at the level of canonical id strings, stepping an id forward and
/// then back returns the original string.
pub proof fn lemma_id_string_round_trip(t: nat, q: nat)
    requires
        q <= MAX_SEQUENCE,
    ensures
        id_time_of(id_rep(succ_pair(t, q).0, succ_pair(t, q).1)) == succ_pair(t, q).0,
        id_seq_of(id_rep(succ_pair(t, q).0, succ_pair(t, q).1)) == succ_pair(t, q).1,
        id_rep(
            pred_pair(succ_pair(t, q).0, succ_pair(t, q).1).0,
            pred_pair(succ_pair(t, q).0, succ_pair(t, q).1).1,
        ) == id_rep(t, q),
{
    lemma_id_rep_parse(succ_pair(t, q).0, succ_pair(t, q).1);
    lemma_predecessor_of_successor(t, q);
}

/// Step a textual entry id forward by one: `<time>-<sequence>` with the
/// sequence component incremented, rolling over to `<time+1>-0` at the
/// maximum sequence value. The result is in canonical form.
pub fn incr_id(id: &str) -> (r: String)
    requires
        well_formed_id(id@),
        id_time_of(id@) <= u64::MAX,
        id_seq_of(id@) <= MAX_SEQUENCE,
        id_seq_of(id@) == MAX_SEQUENCE ==> id_time_of(id@) < u64::MAX,
    ensures
        r@ == id_rep(
            succ_pair(id_time_of(id@), id_seq_of(id@)).0,
            succ_pair(id_time_of(id@), id_seq_of(id@)).1,
        ),
{
    match parse_entry_id(id) {
        Ok(eid) => eid.successor().to_id_string(),
        Err(_) => vstd::pervasive::unreached(),
    }
}

/// Step a textual entry id back by one: `<time>-<sequence>` with the
/// sequence component decremented, borrowing from the time component at
/// sequence zero. The result is in canonical form.
pub fn decr_id(id: &str) -> (r: String)
    requires
        well_formed_id(id@),
        id_time_of(id@) <= u64::MAX,
        id_seq_of(id@) <= MAX_SEQUENCE,
        id_time_of(id@) > 0 || id_seq_of(id@) > 0,
    ensures
        r@ == id_rep(
            pred_pair(id_time_of(id@), id_seq_of(id@)).0,
            pred_pair(id_time_of(id@), id_seq_of(id@)).1,
        ),
{
    match parse_entry_id(id) {
        Ok(eid) => eid.predecessor().to_id_string(),
        Err(_) => vstd::pervasive::unreached(),
    }
}

} // verus!
