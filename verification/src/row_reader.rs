//! Reading back the fields of rows written by `RowWriter`.
//!
//! Each read takes the field at the current position and moves past it. A
//! read is defined on the bytes it finds; in addition, each read states the
//! round trip: where the bytes at the position are the encoding of a value,
//! the read gives that value back and moves exactly past its encoding.

use crate::codec::{starts_with, vlen_decode, vlen_decoding, vlen_encoding};
use crate::row_writer::{enc_bool, enc_opt_u64, enc_str, enc_str_list, enc_str_vec, enc_u64, enc_version, utf8};
use vstd::prelude::*;
use vstd::utf8::{decode_utf8, encode_utf8_decode_utf8, encode_utf8_valid_utf8, valid_utf8};

verus! {

/// Whether `chrono` can represent the instant `secs` seconds after the epoch.
pub uninterp spec fn chrono_timestamp_valid(secs: i64) -> bool;

/// Whether `chrono` can represent the day `days` days after 1970-01-01.
pub uninterp spec fn chrono_epoch_day_valid(days: i32) -> bool;

/// Asks `chrono::Utc.timestamp_opt(secs, 0)` for a single instant and keeps
/// whether there is one. The contract names the result and adds that the
/// epoch itself is representable (`chrono` represents instants some 262,000
/// years either side of it).
#[verifier::external_body]
pub(crate) fn timestamp_valid(secs: i64) -> (r: bool)
    ensures
        r == chrono_timestamp_valid(secs),
        secs == 0 ==> r,
{
    chrono::TimeZone::timestamp_opt(&chrono::Utc, secs, 0).single().is_some()
}

/// Asks `chrono::NaiveDate::from_epoch_days(days)` for a date and keeps
/// whether there is one. The contract only names the result.
#[verifier::external_body]
fn epoch_day_valid(days: i32) -> (r: bool)
    ensures
        r == chrono_epoch_day_valid(days),
{
    chrono::NaiveDate::from_epoch_days(days).is_some()
}

/// Interprets bytes as UTF-8 text (`core::str::from_utf8`), which succeeds
/// exactly on valid UTF-8 and then views the same bytes.
#[verifier::external_body]
fn utf8_text<'a>(bytes: &'a [u8]) -> (r: Option<&'a str>)
    ensures
        r is Some <==> valid_utf8(bytes@),
        r matches Some(t) ==> t@ == decode_utf8(bytes@),
{
    core::str::from_utf8(bytes).ok()
}

/// The integer field at `pos` and the position after it.
pub open spec fn u64_at(d: Seq<u8>, pos: int) -> Option<(u64, int)> {
    if 0 <= pos <= d.len() {
        match vlen_decoding(d.skip(pos)) {
            Some((v, n)) => Some((v, pos + n)),
            None => None,
        }
    } else {
        None
    }
}

/// The string field at `pos` (its bytes) and the position after it.
pub open spec fn str_at(d: Seq<u8>, pos: int) -> Option<(Seq<u8>, int)> {
    match u64_at(d, pos) {
        Some((len, q)) => if q + len <= d.len() && valid_utf8(d.subrange(q, q + len)) {
            Some((d.subrange(q, q + len), q + len))
        } else {
            None
        },
        None => None,
    }
}

/// The byte at `pos` and the position after it.
pub open spec fn byte_at(d: Seq<u8>, pos: int) -> Option<(u8, int)> {
    if 0 <= pos < d.len() {
        Some((d[pos], pos + 1))
    } else {
        None
    }
}

/// The optional integer field at `pos`: a zero byte means absent, any other
/// byte is followed by the value.
pub open spec fn opt_u64_at(d: Seq<u8>, pos: int) -> Option<(Option<u64>, int)> {
    match byte_at(d, pos) {
        Some((b, q)) => if b == 0 {
            Some((None, q))
        } else {
            match u64_at(d, q) {
                Some((v, r)) => Some((Some(v), r)),
                None => None,
            }
        },
        None => None,
    }
}

/// `count` string fields starting at `pos` (their bytes) and the position
/// after them.
pub open spec fn strs_at(d: Seq<u8>, pos: int, count: nat) -> Option<(Seq<Seq<u8>>, int)>
    decreases count,
{
    if count == 0 {
        Some((Seq::<Seq<u8>>::empty(), pos))
    } else {
        match strs_at(d, pos, (count - 1) as nat) {
            Some((items, q)) => match str_at(d, q) {
                Some((b, r)) => Some((items.push(b), r)),
                None => None,
            },
            None => None,
        }
    }
}

/// The string-list field at `pos` and the position after it.
pub open spec fn str_vec_at(d: Seq<u8>, pos: int) -> Option<(Seq<Seq<u8>>, int)> {
    match u64_at(d, pos) {
        Some((count, q)) => strs_at(d, q, count as nat),
        None => None,
    }
}

/// A cursor over the bytes of stored rows.
pub struct RowReader<'a> {
    data: &'a [u8],
    position: usize,
}

impl<'a> RowReader<'a> {
    /// All the bytes.
    pub closed spec fn bytes(&self) -> Seq<u8> {
        self.data@
    }

    /// The current position.
    pub closed spec fn pos(&self) -> int {
        self.position as int
    }

    /// The bytes from the current position on.
    pub open spec fn rest(&self) -> Seq<u8> {
        self.bytes().skip(self.pos())
    }

    pub closed spec fn wf(&self) -> bool {
        self.position <= self.data@.len() && self.data@.len() <= usize::MAX
    }

    /// A well-formed reader stands within its bytes.
    pub proof fn lemma_wf(&self)
        requires
            self.wf(),
        ensures
            0 <= self.pos() <= self.bytes().len(),
            self.bytes().len() <= usize::MAX,
    {
    }

    pub fn new(data: &'a [u8]) -> (r: Self)
        ensures
            r.wf(),
            r.bytes() == data@,
            r.pos() == 0,
    {
        let _n = data.len();
        RowReader { data, position: 0 }
    }

    pub fn position(&self) -> (r: usize)
        ensures
            r == self.pos(),
    {
        self.position
    }

    /// Whether the integer read is defined here.
    pub open spec fn can_read_u64(&self) -> bool {
        u64_at(self.bytes(), self.pos()) is Some
            || exists|v: u64| #[trigger] starts_with(self.rest(), enc_u64(v))
    }

    pub fn read_byte(&mut self) -> (r: u8)
        requires
            old(self).wf(),
            old(self).pos() < old(self).bytes().len(),
        ensures
            final(self).wf(),
            final(self).bytes() == old(self).bytes(),
            byte_at(old(self).bytes(), old(self).pos()) == Some((r, final(self).pos())),
    {
        let b = self.data[self.position];
        self.position = self.position + 1;
        b
    }

    pub fn read_u64(&mut self) -> (r: u64)
        requires
            old(self).wf(),
            old(self).can_read_u64(),
        ensures
            final(self).wf(),
            final(self).bytes() == old(self).bytes(),
            u64_at(old(self).bytes(), old(self).pos()) == Some((r, final(self).pos())),
            forall|v: u64| #[trigger] starts_with(old(self).rest(), enc_u64(v))
                ==> r == v && final(self).pos() == old(self).pos() + enc_u64(v).len(),
    {
        let rest = vstd::slice::slice_subrange(self.data, self.position, self.data.len());
        assert(rest@ =~= old(self).rest());
        match vlen_decode(rest) {
            Some((v, n)) => {
                self.position = self.position + n;
                v
            },
            None => {
                proof {
                    let w = choose|w: u64| #[trigger] starts_with(old(self).rest(), enc_u64(w));
                    assert(starts_with(rest@, vlen_encoding(w)));
                }
                0
            },
        }
    }

    pub fn read_bool(&mut self) -> (r: bool)
        requires
            old(self).wf(),
            old(self).pos() < old(self).bytes().len(),
        ensures
            final(self).wf(),
            final(self).bytes() == old(self).bytes(),
            byte_at(old(self).bytes(), old(self).pos()) matches Some((b, q))
                && r == (b != 0) && final(self).pos() == q,
            forall|v: bool| #[trigger] starts_with(old(self).rest(), enc_bool(v))
                ==> r == v && final(self).pos() == old(self).pos() + 1,
    {
        let b = self.read_byte();
        proof {
            assert forall|v: bool| #[trigger] starts_with(old(self).rest(), enc_bool(v))
                implies (b != 0) == v by {
                assert(old(self).rest()[0] == enc_bool(v)[0]);
            }
        }
        b != 0
    }

    /// Whether the string read is defined here.
    pub open spec fn can_read_str(&self) -> bool {
        str_at(self.bytes(), self.pos()) is Some
            || exists|s: Seq<char>| #[trigger] starts_with(self.rest(), enc_str(s))
    }

    pub fn read_str(&mut self) -> (r: &'a str)
        requires
            old(self).wf(),
            old(self).can_read_str(),
        ensures
            final(self).wf(),
            final(self).bytes() == old(self).bytes(),
            str_at(old(self).bytes(), old(self).pos()) matches Some((b, q))
                && r@ == decode_utf8(b) && final(self).pos() == q,
            forall|s: Seq<char>| #[trigger] starts_with(old(self).rest(), enc_str(s))
                ==> r@ == s && final(self).pos() == old(self).pos() + enc_str(s).len(),
    {
        let ghost d = self.bytes();
        let ghost p = self.pos();
        proof {
            if str_at(d, p) is None {
                let s = choose|s: Seq<char>| #[trigger] starts_with(old(self).rest(), enc_str(s));
                lemma_str_prefix(old(self).rest(), s);
            }
        }
        let len = self.read_u64();
        let ghost q = self.pos();
        proof {
            assert forall|s: Seq<char>| #[trigger] starts_with(old(self).rest(), enc_str(s))
                implies len == utf8(s).len() && q == p + vlen_encoding(len).len()
                    && q + len <= d.len() && d.subrange(q, q + len) == utf8(s) by {
                lemma_str_prefix(old(self).rest(), s);
                let e = vlen_encoding(utf8(s).len() as u64);
                assert(old(self).rest().subrange(e.len() as int, (e.len() + utf8(s).len()) as int) =~= utf8(s));
                assert(d.subrange(q, q + len) =~= old(self).rest().subrange(e.len() as int, (e.len() + utf8(s).len()) as int));
            }
        }
        if len > (self.data.len() - self.position) as u64 {
            proof {
                if str_at(d, p) is None {
                    let s = choose|s: Seq<char>| #[trigger] starts_with(old(self).rest(), enc_str(s));
                }
            }
            return "";
        }
        let end = self.position + len as usize;
        let bytes = vstd::slice::slice_subrange(self.data, self.position, end);
        self.position = end;
        match utf8_text(bytes) {
            Some(t) => {
                proof {
                    assert forall|s: Seq<char>| #[trigger] starts_with(old(self).rest(), enc_str(s))
                        implies t@ == s by {
                        encode_utf8_decode_utf8(s);
                    }
                }
                t
            },
            None => {
                proof {
                    if str_at(d, p) is None {
                        let s = choose|s: Seq<char>| #[trigger] starts_with(old(self).rest(), enc_str(s));
                        encode_utf8_valid_utf8(s);
                    }
                }
                ""
            },
        }
    }
}

impl<'a> RowReader<'a> {
    /// Whether the optional integer read is defined here.
    pub open spec fn can_read_optional_u64(&self) -> bool {
        opt_u64_at(self.bytes(), self.pos()) is Some
            || exists|o: Option<u64>| #[trigger] starts_with(self.rest(), enc_opt_u64(o))
    }

    pub fn read_optional_u64(&mut self) -> (r: Option<u64>)
        requires
            old(self).wf(),
            old(self).can_read_optional_u64(),
        ensures
            final(self).wf(),
            final(self).bytes() == old(self).bytes(),
            opt_u64_at(old(self).bytes(), old(self).pos()) == Some((r, final(self).pos())),
            forall|o: Option<u64>| #[trigger] starts_with(old(self).rest(), enc_opt_u64(o))
                ==> r == o && final(self).pos() == old(self).pos() + enc_opt_u64(o).len(),
    {
        let ghost p = self.pos();
        let ghost d = self.bytes();
        proof {
            if opt_u64_at(d, p) is None {
                let o = choose|o: Option<u64>| #[trigger] starts_with(old(self).rest(), enc_opt_u64(o));
                assert(old(self).rest()[0] == enc_opt_u64(o)[0]);
            }
        }
        let flag = self.read_byte();
        if flag != 0 {
            proof {
                assert forall|o: Option<u64>| #[trigger] starts_with(old(self).rest(), enc_opt_u64(o))
                    implies o is Some && starts_with(self.rest(), enc_u64(o->0)) by {
                    assert(old(self).rest()[0] == enc_opt_u64(o)[0]);
                    let e = vlen_encoding(o->0);
                    assert(self.rest().subrange(0, e.len() as int) =~= enc_opt_u64(o).subrange(1, e.len() + 1int));
                    assert(enc_opt_u64(o).subrange(1, e.len() + 1int) =~= e);
                }
                if opt_u64_at(d, p) is None {
                    let o = choose|o: Option<u64>| #[trigger] starts_with(old(self).rest(), enc_opt_u64(o));
                    assert(starts_with(self.rest(), enc_u64(o->0)));
                }
                assert(self.rest() =~= d.skip(p + 1));
            }
            let v = self.read_u64();
            Some(v)
        } else {
            proof {
                assert forall|o: Option<u64>| #[trigger] starts_with(old(self).rest(), enc_opt_u64(o))
                    implies o is None by {
                    assert(old(self).rest()[0] == enc_opt_u64(o)[0]);
                }
            }
            None
        }
    }

    /// Whether the string-list read is defined here.
    pub open spec fn can_read_str_vec(&self) -> bool {
        str_vec_at(self.bytes(), self.pos()) is Some
            || exists|items: Seq<Seq<char>>| items.len() <= u64::MAX && #[trigger] starts_with(self.rest(), enc_str_vec(items))
    }

    pub fn read_str_vec(&mut self) -> (r: Vec<&'a str>)
        requires
            old(self).wf(),
            old(self).can_read_str_vec(),
        ensures
            final(self).wf(),
            final(self).bytes() == old(self).bytes(),
            str_vec_at(old(self).bytes(), old(self).pos()) matches Some((items, q))
                && final(self).pos() == q && r@.len() == items.len()
                && forall|i: int| 0 <= i < items.len() ==> #[trigger] r@[i]@ == decode_utf8(items[i]),
            forall|items: Seq<Seq<char>>| items.len() <= u64::MAX && #[trigger] starts_with(old(self).rest(), enc_str_vec(items))
                ==> r@.len() == items.len()
                    && (forall|i: int| 0 <= i < items.len() ==> #[trigger] r@[i]@ == items[i])
                    && final(self).pos() == old(self).pos() + enc_str_vec(items).len(),
    {
        let ghost p = self.pos();
        let ghost d = self.bytes();
        proof {
            assert forall|items: Seq<Seq<char>>| items.len() <= u64::MAX && #[trigger] starts_with(old(self).rest(), enc_str_vec(items))
                implies starts_with(old(self).rest(), enc_u64(items.len() as u64)) by {
                lemma_str_vec_prefix(old(self).rest(), items);
            }
            if str_vec_at(d, p) is None {
                let items = choose|items: Seq<Seq<char>>| items.len() <= u64::MAX && #[trigger] starts_with(old(self).rest(), enc_str_vec(items));
                assert(starts_with(old(self).rest(), enc_u64(items.len() as u64)));
            }
        }
        let count = self.read_u64();
        let ghost q0 = self.pos();
        proof {
            assert forall|items: Seq<Seq<char>>| items.len() <= u64::MAX && #[trigger] starts_with(old(self).rest(), enc_str_vec(items))
                implies items.len() == count
                    && self.pos() == p + vlen_encoding(count).len() + enc_str_list(items.subrange(0, 0)).len()
                    && starts_with(d.skip(self.pos()), enc_str_list(items.subrange(0, items.len() as int))) by {
                lemma_str_vec_prefix(old(self).rest(), items);
                assert(starts_with(old(self).rest(), enc_u64(items.len() as u64)));
                assert(items.subrange(0, 0) =~= Seq::<Seq<char>>::empty());
                assert(items.subrange(0, items.len() as int) =~= items);
                assert(d.skip(self.pos()) =~= old(self).rest().skip(vlen_encoding(items.len() as u64).len() as int));
            }
        }
        let mut result: Vec<&'a str> = Vec::new();
        let mut i: u64 = 0;
        while i < count
            invariant
                self.wf(),
                self.bytes() == d,
                i <= count,
                u64_at(d, p) == Some((count, q0)),
                result@.len() == i,
                strs_ok(d, q0, i as nat, self.pos(), result@),
                forall|items: Seq<Seq<char>>| items.len() <= u64::MAX && #[trigger] starts_with(old(self).rest(), enc_str_vec(items))
                    ==> items.len() == count
                        && self.pos() == p + vlen_encoding(count).len() + enc_str_list(items.subrange(0, i as int)).len()
                        && (forall|k: int| 0 <= k < i ==> #[trigger] result@[k]@ == items[k])
                        && starts_with(d.skip(self.pos()), enc_str_list(items.subrange(i as int, items.len() as int))),
                str_vec_at(d, p) is Some || exists|items: Seq<Seq<char>>| items.len() <= u64::MAX && #[trigger] starts_with(old(self).rest(), enc_str_vec(items)),
            decreases count - i,
        {
            let ghost before = self.pos();
            proof {
                assert(self.rest() =~= d.skip(self.pos()));
                if str_vec_at(d, p) is Some {
                    lemma_strs_at_step(d, q0, i as nat, count as nat);
                } else {
                    let items = choose|items: Seq<Seq<char>>| items.len() <= u64::MAX && #[trigger] starts_with(old(self).rest(), enc_str_vec(items));
                    let tail = items.subrange(i as int, items.len() as int);
                    lemma_str_list_head(d.skip(self.pos()), tail);
                    assert(tail[0] == items[i as int]);
                    assert(starts_with(self.rest(), enc_str(items[i as int])));
                }
            }
            let t = self.read_str();
            let ghost prev = result@;
            result.push(t);
            proof {
                {
                    assert(strs_ok(d, q0, (i + 1) as nat, self.pos(), result@)) by {
                        let got = (strs_at(d, q0, i as nat)->0).0;
                        assert forall|k: int| 0 <= k < i + 1 implies #[trigger] result@[k]@ == decode_utf8((strs_at(d, q0, (i + 1) as nat)->0).0[k]) by {
                            if k < i {
                                assert(result@[k] == prev[k]);
                            }
                        }
                    }
                }
                assert forall|items: Seq<Seq<char>>| items.len() <= u64::MAX && #[trigger] starts_with(old(self).rest(), enc_str_vec(items))
                    implies items.len() == count
                        && self.pos() == p + vlen_encoding(count).len() + enc_str_list(items.subrange(0, i + 1)).len()
                        && (forall|k: int| 0 <= k < i + 1 ==> #[trigger] result@[k]@ == items[k])
                        && starts_with(d.skip(self.pos()), enc_str_list(items.subrange(i + 1, items.len() as int))) by {
                    let tail = items.subrange(i as int, items.len() as int);
                    lemma_str_list_head(d.skip(before), tail);
                    assert(tail[0] == items[i as int]);
                    assert(items.subrange(0, i + 1).drop_last() =~= items.subrange(0, i as int));
                    assert(tail.skip(1) =~= items.subrange(i + 1, items.len() as int));
                    assert(d.skip(self.pos()) =~= d.skip(before).skip(enc_str(items[i as int]).len() as int));
                    assert forall|k: int| 0 <= k < i + 1 implies #[trigger] result@[k]@ == items[k] by {
                        if k < i {
                            assert(result@[k] == prev[k]);
                        }
                    }
                }
            }
            i = i + 1;
        }
        proof {
            assert forall|items: Seq<Seq<char>>| items.len() <= u64::MAX && #[trigger] starts_with(old(self).rest(), enc_str_vec(items))
                implies self.pos() == p + enc_str_vec(items).len() by {
                assert(items.subrange(0, items.len() as int) =~= items);
            }
        }
        result
    }
}

/// A version: its numbers and its pre-release and build texts.
#[derive(Debug, Clone, PartialEq, Eq, Hash)]
pub struct StoredVersion {
    pub major: u64,
    pub minor: u64,
    pub patch: u64,
    pub pre: String,
    pub build: String,
}

impl StoredVersion {
    pub open spec fn parts(&self) -> (u64, u64, u64, Seq<char>, Seq<char>) {
        (self.major, self.minor, self.patch, self.pre@, self.build@)
    }
}

/// The instant of a stored timestamp that the reader accepts.
pub open spec fn datetime_ok(v: u64) -> bool {
    v <= i64::MAX && (v == 0 || chrono_timestamp_valid(v as i64))
}

/// The day a stored date stands for: values that `chrono` cannot represent as
/// a date read as 1970-01-01.
pub open spec fn stored_date(v: u64) -> i32 {
    if v <= i32::MAX && chrono_epoch_day_valid(v as i32) { v as i32 } else { 0 }
}

impl<'a> RowReader<'a> {
    /// Whether the optional-string read is defined here.
    pub open spec fn can_read_optional_str(&self) -> bool {
        self.pos() < self.bytes().len() && (self.bytes()[self.pos()] == 0
            || str_at(self.bytes(), self.pos() + 1) is Some
            || exists|s: Seq<char>| #[trigger] starts_with(self.rest(), seq![1u8] + enc_str(s)))
    }

    pub fn read_optional_str(&mut self) -> (r: Option<&'a str>)
        requires
            old(self).wf(),
            old(self).can_read_optional_str(),
        ensures
            final(self).wf(),
            final(self).bytes() == old(self).bytes(),
            old(self).bytes()[old(self).pos()] == 0 ==> r is None && final(self).pos() == old(self).pos() + 1,
            old(self).bytes()[old(self).pos()] != 0 ==> (str_at(old(self).bytes(), old(self).pos() + 1)
                matches Some((b, q)) && r matches Some(t) && t@ == decode_utf8(b) && final(self).pos() == q),
            forall|s: Seq<char>| #[trigger] starts_with(old(self).rest(), seq![1u8] + enc_str(s))
                ==> (r matches Some(t) && t@ == s && final(self).pos() == old(self).pos() + 1 + enc_str(s).len()),
    {
        let flag = self.read_byte();
        proof {
            assert(old(self).rest()[0] == flag);
            assert forall|s: Seq<char>| #[trigger] starts_with(old(self).rest(), seq![1u8] + enc_str(s))
                implies flag != 0 && starts_with(self.rest(), enc_str(s)) by {
                lemma_starts_with_concat(old(self).rest(), seq![1u8], enc_str(s));
                assert(old(self).rest()[0] == (seq![1u8] + enc_str(s))[0]);
                assert(self.rest() =~= old(self).rest().skip(1));
            }
            assert(self.rest() =~= old(self).bytes().skip(old(self).pos() + 1));
        }
        if flag != 0 {
            let t = self.read_str();
            Some(t)
        } else {
            None
        }
    }

    /// Whether the timestamp read is defined here.
    pub open spec fn can_read_datetime(&self) -> bool {
        (u64_at(self.bytes(), self.pos()) matches Some((v, q)) && datetime_ok(v))
            || exists|v: u64| #[trigger] starts_with(self.rest(), enc_u64(v)) && datetime_ok(v)
    }

    /// Reads a timestamp, in seconds since the epoch.
    pub fn read_datetime(&mut self) -> (r: i64)
        requires
            old(self).wf(),
            old(self).can_read_datetime(),
        ensures
            final(self).wf(),
            final(self).bytes() == old(self).bytes(),
            u64_at(old(self).bytes(), old(self).pos()) matches Some((v, q))
                && r == v && final(self).pos() == q,
            forall|v: u64| #[trigger] starts_with(old(self).rest(), enc_u64(v))
                ==> r == v && final(self).pos() == old(self).pos() + enc_u64(v).len(),
    {
        let v = self.read_u64();
        if v > i64::MAX as u64 {
            return 0;
        }
        let t = v as i64;
        if !timestamp_valid(t) {
            return 0;
        }
        t
    }

    /// Reads a date, in days since 1970-01-01.
    pub fn read_date(&mut self) -> (r: i32)
        requires
            old(self).wf(),
            old(self).can_read_u64(),
        ensures
            final(self).wf(),
            final(self).bytes() == old(self).bytes(),
            u64_at(old(self).bytes(), old(self).pos()) matches Some((v, q))
                && r == stored_date(v) && final(self).pos() == q,
            forall|v: u64| #[trigger] starts_with(old(self).rest(), enc_u64(v))
                ==> r == stored_date(v) && final(self).pos() == old(self).pos() + enc_u64(v).len(),
    {
        let v = self.read_u64();
        let days: i32 = if v <= i32::MAX as u64 { v as i32 } else { 0 };
        if epoch_day_valid(days) {
            days
        } else {
            0
        }
    }

    /// Whether the version read is defined here.
    pub open spec fn can_read_version(&self) -> bool {
        exists|v: (u64, u64, u64, Seq<char>, Seq<char>)| #[trigger] starts_with(self.rest(), enc_version(v))
    }

    pub fn read_version(&mut self) -> (r: StoredVersion)
        requires
            old(self).wf(),
            old(self).can_read_version(),
        ensures
            final(self).wf(),
            final(self).bytes() == old(self).bytes(),
            forall|v: (u64, u64, u64, Seq<char>, Seq<char>)| #[trigger] starts_with(old(self).rest(), enc_version(v))
                ==> r.parts() == v && final(self).pos() == old(self).pos() + enc_version(v).len(),
    {
        let ghost p = self.pos();
        let ghost d = self.bytes();
        let ghost w = choose|v: (u64, u64, u64, Seq<char>, Seq<char>)| #[trigger] starts_with(old(self).rest(), enc_version(v));
        proof {
            lemma_version_prefix(d, p, w);
        }
        let ghost l0 = enc_u64(w.0).len();
        let ghost l1 = enc_u64(w.1).len();
        let ghost l2 = enc_u64(w.2).len();
        let ghost l3 = enc_str(w.3).len();
        let major = self.read_u64();
        assert(self.rest() =~= d.skip(p + l0));
        let minor = self.read_u64();
        assert(self.rest() =~= d.skip(p + l0 + l1));
        let patch = self.read_u64();
        assert(self.rest() =~= d.skip(p + l0 + l1 + l2));
        let pre = self.read_str();
        assert(self.rest() =~= d.skip(p + l0 + l1 + l2 + l3));
        let build = self.read_str();
        proof {
            assert forall|v: (u64, u64, u64, Seq<char>, Seq<char>)| #[trigger] starts_with(old(self).rest(), enc_version(v))
                implies v == w by {
                lemma_version_prefix(d, p, v);
                lemma_version_prefix(d, p, w);
            }
        }
        StoredVersion { major, minor, patch, pre: pre.to_owned(), build: build.to_owned() }
    }
}

/// The fields of a version's encoding follow one another.
proof fn lemma_version_prefix(d: Seq<u8>, p: int, v: (u64, u64, u64, Seq<char>, Seq<char>))
    requires
        0 <= p <= d.len(),
        d.len() <= usize::MAX,
        starts_with(d.skip(p), enc_version(v)),
    ensures
        starts_with(d.skip(p), enc_u64(v.0)),
        starts_with(d.skip(p + enc_u64(v.0).len()), enc_u64(v.1)),
        starts_with(d.skip(p + enc_u64(v.0).len() + enc_u64(v.1).len()), enc_u64(v.2)),
        starts_with(d.skip(p + enc_u64(v.0).len() + enc_u64(v.1).len() + enc_u64(v.2).len()), enc_str(v.3)),
        starts_with(d.skip(p + enc_u64(v.0).len() + enc_u64(v.1).len() + enc_u64(v.2).len() + enc_str(v.3).len()), enc_str(v.4)),
        enc_version(v).len() == enc_u64(v.0).len() + enc_u64(v.1).len() + enc_u64(v.2).len() + enc_str(v.3).len() + enc_str(v.4).len(),
{
    let a = enc_u64(v.0);
    let b = enc_u64(v.1);
    let c = enc_u64(v.2);
    let e = enc_str(v.3);
    let f = enc_str(v.4);
    assert(enc_version(v) =~= a + (b + (c + (e + f))));
    lemma_starts_with_concat(d.skip(p), a, b + (c + (e + f)));
    assert(d.skip(p).skip(a.len() as int) =~= d.skip(p + a.len()));
    lemma_starts_with_concat(d.skip(p + a.len()), b, c + (e + f));
    assert(d.skip(p + a.len()).skip(b.len() as int) =~= d.skip(p + a.len() + b.len()));
    lemma_starts_with_concat(d.skip(p + a.len() + b.len()), c, e + f);
    assert(d.skip(p + a.len() + b.len()).skip(c.len() as int) =~= d.skip(p + a.len() + b.len() + c.len()));
    lemma_starts_with_concat(d.skip(p + a.len() + b.len() + c.len()), e, f);
    assert(d.skip(p + a.len() + b.len() + c.len()).skip(e.len() as int) =~= d.skip(p + a.len() + b.len() + c.len() + e.len()));
}

/// The first `i` strings after `q0` decode to the elements of `got`, and end
/// at `pos`.
pub open spec fn strs_ok(d: Seq<u8>, q0: int, i: nat, pos: int, got: Seq<&str>) -> bool {
    strs_at(d, q0, i) matches Some((items, q))
        && q == pos
        && items.len() == i
        && got.len() == i
        && forall|k: int| 0 <= k < i ==> #[trigger] got[k]@ == decode_utf8(items[k])
}

/// An encoding that starts with `a + b` starts with `a`, and `b` follows it.
proof fn lemma_starts_with_concat(rest: Seq<u8>, a: Seq<u8>, b: Seq<u8>)
    requires
        starts_with(rest, a + b),
    ensures
        starts_with(rest, a),
        starts_with(rest.skip(a.len() as int), b),
{
    let full = a + b;
    assert forall|k: int| 0 <= k < a.len() implies rest[k] == a[k] by {
        assert(rest.subrange(0, full.len() as int)[k] == full[k]);
    }
    assert(rest.subrange(0, a.len() as int) =~= a);
    assert forall|k: int| 0 <= k < b.len() implies rest.skip(a.len() as int)[k] == b[k] by {
        assert(rest.subrange(0, full.len() as int)[a.len() + k] == full[a.len() + k]);
    }
    assert(rest.skip(a.len() as int).subrange(0, b.len() as int) =~= b);
}

/// A string list's encoding at the start of `rest` starts with its count,
/// followed by the elements' encodings.
proof fn lemma_str_vec_prefix(rest: Seq<u8>, items: Seq<Seq<char>>)
    requires
        starts_with(rest, enc_str_vec(items)),
    ensures
        starts_with(rest, enc_u64(items.len() as u64)),
        starts_with(rest.skip(vlen_encoding(items.len() as u64).len() as int), enc_str_list(items)),
{
    lemma_starts_with_concat(rest, vlen_encoding(items.len() as u64), enc_str_list(items));
}

proof fn lemma_str_list_head(rest: Seq<u8>, items: Seq<Seq<char>>)
    requires
        items.len() > 0,
        starts_with(rest, enc_str_list(items)),
    ensures
        starts_with(rest, enc_str(items[0])),
        starts_with(rest.skip(enc_str(items[0]).len() as int), enc_str_list(items.skip(1))),
{
    lemma_enc_str_list_cons(items);
    lemma_starts_with_concat(rest, enc_str(items[0]), enc_str_list(items.skip(1)));
}

proof fn lemma_enc_str_list_cons(items: Seq<Seq<char>>)
    requires
        items.len() > 0,
    ensures
        enc_str_list(items) == enc_str(items[0]) + enc_str_list(items.skip(1)),
    decreases items.len(),
{
    if items.len() == 1 {
        assert(items.drop_last() =~= Seq::<Seq<char>>::empty());
        assert(items.skip(1) =~= Seq::<Seq<char>>::empty());
        assert(enc_str_list(items) =~= enc_str(items[0]) + enc_str_list(items.skip(1)));
    } else {
        lemma_enc_str_list_cons(items.drop_last());
        assert(items.drop_last().skip(1) =~= items.skip(1).drop_last());
        assert(enc_str_list(items) =~= enc_str(items[0]) + enc_str_list(items.skip(1)));
    }
}

proof fn lemma_strs_at_step(d: Seq<u8>, q0: int, i: nat, count: nat)
    requires
        i < count,
        strs_at(d, q0, count) is Some,
    ensures
        strs_at(d, q0, i) matches Some((got, q)) && str_at(d, q) is Some,
    decreases count - i,
{
    if i + 1 < count {
        lemma_strs_at_step(d, q0, i + 1, count);
    }
}

/// A string's encoding at the start of `rest` starts with the encoding of its
/// byte count, and its bytes follow within `rest`.
proof fn lemma_str_prefix(rest: Seq<u8>, s: Seq<char>)
    requires
        starts_with(rest, enc_str(s)),
        rest.len() <= usize::MAX,
    ensures
        starts_with(rest, enc_u64(utf8(s).len() as u64)),
        utf8(s).len() as u64 == utf8(s).len(),
        vlen_encoding(utf8(s).len() as u64).len() + utf8(s).len() <= rest.len(),
        rest.subrange(vlen_encoding(utf8(s).len() as u64).len() as int,
            (vlen_encoding(utf8(s).len() as u64).len() + utf8(s).len()) as int) == utf8(s),
{
    let e = vlen_encoding(utf8(s).len() as u64);
    let b = utf8(s);
    assert(enc_str(s) =~= e + b);
    assert(b.len() <= rest.len());
    assert(enc_str(s).subrange(0, e.len() as int) =~= e);
    assert(rest.subrange(0, e.len() as int) =~= enc_str(s).subrange(0, e.len() as int));
    assert(rest.subrange(e.len() as int, (e.len() + b.len()) as int) =~= enc_str(s).subrange(e.len() as int, (e.len() + b.len()) as int));
}

/// The encodings of the first strings of a list start the encodings of the
/// whole list.
proof fn lemma_str_list_prefix(items: Seq<Seq<char>>, j: int)
    requires
        0 <= j <= items.len(),
    ensures
        starts_with(enc_str_list(items), enc_str_list(items.take(j))),
    decreases items.len(),
{
    if j == items.len() {
        assert(items.take(j) =~= items);
        let e = enc_str_list(items);
        assert(e.subrange(0, e.len() as int) =~= e);
    } else {
        lemma_str_list_prefix(items.drop_last(), j);
        assert(items.drop_last().take(j) =~= items.take(j));
        let a = enc_str_list(items.drop_last());
        let p = enc_str_list(items.take(j));
        assert(enc_str_list(items) == a + enc_str(items.last()));
        assert((a + enc_str(items.last())).subrange(0, p.len() as int) =~= a.subrange(0, p.len() as int));
    }
}

/// Strings written one after the other read back one by one: where what is
/// left to read starts with the encodings of `items` (as `write_str` appends
/// them, see `enc_str_list`), the encoding of the `i`-th string starts right
/// after those of the strings before it. By the contract of `read_str`,
/// successive reads then give the strings back in order, each moving past
/// its own encoding.
pub proof fn lemma_strings_read_back(rest: Seq<u8>, items: Seq<Seq<char>>, i: int)
    requires
        starts_with(rest, enc_str_list(items)),
        0 <= i < items.len(),
    ensures
        starts_with(rest.skip(enc_str_list(items.take(i)).len() as int), enc_str(items[i])),
        enc_str_list(items.take(i + 1)).len() == enc_str_list(items.take(i)).len() + enc_str(items[i]).len(),
{
    lemma_str_list_prefix(items, i + 1);
    let a = enc_str_list(items.take(i));
    let b = enc_str(items[i]);
    assert(items.take(i + 1).drop_last() =~= items.take(i));
    assert(enc_str_list(items.take(i + 1)) == a + b);
    let whole = enc_str_list(items);
    assert(rest.subrange(0, (a + b).len() as int) == whole.subrange(0, (a + b).len() as int));
    assert(rest.skip(a.len() as int).subrange(0, b.len() as int) =~= rest.subrange(a.len() as int, (a + b).len() as int));
    assert(whole.subrange(0, (a + b).len() as int) == a + b);
    assert((a + b).subrange(a.len() as int, (a + b).len() as int) =~= b);
    assert(rest.subrange(a.len() as int, (a + b).len() as int) =~= rest.subrange(0, (a + b).len() as int).subrange(a.len() as int, (a + b).len() as int));
}

/// A version written into a row reads back: where the row holds `before`,
/// then the encoding of the version `v` (what `write_str_as_version` appends
/// for a text that parses as `v`), then `after`, what is left to read at the
/// end of `before` starts with that encoding, so that `read_version` there
/// returns `v` and moves past it.
pub proof fn lemma_version_read_back(before: Seq<u8>, v: (u64, u64, u64, Seq<char>, Seq<char>), after: Seq<u8>)
    ensures
        starts_with((before + enc_version(v) + after).skip(before.len() as int), enc_version(v)),
{
    let row = before + enc_version(v) + after;
    let e = enc_version(v);
    assert(row.skip(before.len() as int).subrange(0, e.len() as int) =~= e);
}

/// Whether successive `read_str` calls from a position where `rest` is
/// what is left to read meet `items` in turn: the first string's encoding
/// starts there, and the others follow from where it ends.
pub open spec fn strings_in_turn(rest: Seq<u8>, items: Seq<Seq<char>>) -> bool
    decreases items.len(),
{
    if items.len() == 0 {
        true
    } else {
        starts_with(rest, enc_str(items[0]))
            && strings_in_turn(rest.skip(enc_str(items[0]).len() as int), items.skip(1))
    }
}

/// Strings written one after the other read back in turn: where what is
/// left to read starts with the encodings of `items` (what `write_str`
/// appends for each of them, in order), successive reads meet them in turn
/// (so, by the contract of `read_str`, the `i`-th read returns the `i`-th
/// string and moves past its encoding), and together they take up exactly
/// the bytes of those encodings.
pub proof fn lemma_strings_in_turn(rest: Seq<u8>, items: Seq<Seq<char>>)
    requires
        starts_with(rest, enc_str_list(items)),
    ensures
        strings_in_turn(rest, items),
        enc_str_list(items).len() <= rest.len(),
    decreases items.len(),
{
    if items.len() > 0 {
        lemma_str_list_head(rest, items);
        lemma_enc_str_list_cons(items);
        lemma_strings_in_turn(rest.skip(enc_str(items[0]).len() as int), items.skip(1));
    }
}

} // verus!
