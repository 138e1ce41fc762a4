//! Serialisation of one table row at a time into the compact cache format.
//!
//! A row is a concatenation of fields: integers in the `vlen` encoding,
//! strings as their byte length followed by their UTF-8 bytes, booleans as a
//! single byte, optional values as a presence byte followed by the value.
//! Fields accumulate in a pending buffer; `row_done` moves the finished row to
//! the output and counts it.

use crate::codec::{vlen_decoding, vlen_encode, vlen_encoding};

use crate::cells::{
    parse_pg_array, parse_pg_bool, parse_pg_date, parse_pg_timestamp, parse_version, pg_array, pg_bool,
    pg_date, pg_timestamp, pg_url, pg_version, normalize_url,
};
use crate::numbers::{parse_unsigned, parse_unsigned_chars};
use crate::text::push_str;
use vstd::prelude::*;

verus! {

/// Why a textual field could not be stored.
#[derive(Debug, Clone, PartialEq, Eq)]
pub enum RowError {
    /// The text is not an unsigned 64-bit integer.
    InvalidInteger(String),
    /// The text is not an unsigned 8-bit integer.
    InvalidByte(String),
    /// The text is neither of the two timestamp forms.
    InvalidTimestamp(String),
    /// The text is not a `YYYY-MM-DD` date.
    InvalidDate(String),
    /// The text is not a URL, not even with `https://` in front of it.
    InvalidUrl(String),
    /// The text is not one of `t`, `true`, `f`, `false` or empty.
    InvalidBool(String),
    /// The text is not a semantic version.
    InvalidVersion(String),
    /// The text is not a PostgreSQL array literal `{...}`.
    InvalidArray(String),
    /// The text is not a JSON map from feature names to lists of names.
    InvalidFeatures(String),
}

/// The message of an error: what could not be read, and the text.
pub open spec fn row_error_text(e: RowError) -> Seq<char> {
    match e {
        RowError::InvalidInteger(s) => "unable to parse u64 from '"@ + s@ + "'"@,
        RowError::InvalidByte(s) => "unable to parse u8 from '"@ + s@ + "'"@,
        RowError::InvalidTimestamp(s) => "unable to parse timestamp '"@ + s@ + "'"@,
        RowError::InvalidDate(s) => "unable to parse date '"@ + s@ + "'"@,
        RowError::InvalidUrl(s) => "unable to parse URL from '"@ + s@ + "'"@,
        RowError::InvalidBool(s) => "invalid boolean value: expected 't', 'true', 'f', 'false', or empty, got '"@ + s@ + "'"@,
        RowError::InvalidVersion(s) => "unable to parse version '"@ + s@ + "'"@,
        RowError::InvalidArray(s) => "invalid PostgreSQL array format: expected '{...}', got '"@ + s@ + "'"@,
        RowError::InvalidFeatures(_) => "invalid feature map"@,
    }
}

impl RowError {
    /// The message of the error (see `row_error_text`).
    pub fn message(&self) -> (r: String)
        ensures
            r@ == row_error_text(*self),
    {
        let mut r = String::new();
        match self {
            RowError::InvalidInteger(s) => {
                push_str(&mut r, "unable to parse u64 from '");
                push_str(&mut r, s.as_str());
                push_str(&mut r, "'");
            },
            RowError::InvalidByte(s) => {
                push_str(&mut r, "unable to parse u8 from '");
                push_str(&mut r, s.as_str());
                push_str(&mut r, "'");
            },
            RowError::InvalidTimestamp(s) => {
                push_str(&mut r, "unable to parse timestamp '");
                push_str(&mut r, s.as_str());
                push_str(&mut r, "'");
            },
            RowError::InvalidDate(s) => {
                push_str(&mut r, "unable to parse date '");
                push_str(&mut r, s.as_str());
                push_str(&mut r, "'");
            },
            RowError::InvalidUrl(s) => {
                push_str(&mut r, "unable to parse URL from '");
                push_str(&mut r, s.as_str());
                push_str(&mut r, "'");
            },
            RowError::InvalidBool(s) => {
                push_str(&mut r, "invalid boolean value: expected 't', 'true', 'f', 'false', or empty, got '");
                push_str(&mut r, s.as_str());
                push_str(&mut r, "'");
            },
            RowError::InvalidVersion(s) => {
                push_str(&mut r, "unable to parse version '");
                push_str(&mut r, s.as_str());
                push_str(&mut r, "'");
            },
            RowError::InvalidArray(s) => {
                push_str(&mut r, "invalid PostgreSQL array format: expected '{...}', got '");
                push_str(&mut r, s.as_str());
                push_str(&mut r, "'");
            },
            RowError::InvalidFeatures(_) => {
                push_str(&mut r, "invalid feature map");
            },
        }
        r
    }
}

/// The UTF-8 bytes of a character sequence.
pub open spec fn utf8(chars: Seq<char>) -> Seq<u8> {
    vstd::utf8::encode_utf8(chars)
}

/// Encoding of an unsigned integer field.
pub open spec fn enc_u64(v: u64) -> Seq<u8> {
    vlen_encoding(v)
}

/// Encoding of a string field given its bytes: the byte count, then the bytes.
pub open spec fn enc_bytes(b: Seq<u8>) -> Seq<u8> {
    vlen_encoding(b.len() as u64) + b
}

/// Encoding of a string field given its characters.
pub open spec fn enc_str(s: Seq<char>) -> Seq<u8> {
    enc_bytes(utf8(s))
}

/// Encoding of a boolean field.
pub open spec fn enc_bool(b: bool) -> Seq<u8> {
    seq![if b { 1u8 } else { 0u8 }]
}

/// Encoding of an optional unsigned integer field.
pub open spec fn enc_opt_u64(o: Option<u64>) -> Seq<u8> {
    match o {
        None => seq![0u8],
        Some(v) => seq![1u8] + vlen_encoding(v),
    }
}

/// Encoding of the elements of a string list, one after the other.
pub open spec fn enc_str_list(items: Seq<Seq<char>>) -> Seq<u8>
    decreases items.len(),
{
    if items.len() == 0 {
        Seq::<u8>::empty()
    } else {
        enc_str_list(items.drop_last()) + enc_str(items.last())
    }
}

/// Encoding of a string-list field: the element count, then the elements.
pub open spec fn enc_str_vec(items: Seq<Seq<char>>) -> Seq<u8> {
    vlen_encoding(items.len() as u64) + enc_str_list(items)
}

/// Encoding of a version field: major, minor, patch, pre-release, build.
pub open spec fn enc_version(v: (u64, u64, u64, Seq<char>, Seq<char>)) -> Seq<u8> {
    enc_u64(v.0) + enc_u64(v.1) + enc_u64(v.2) + enc_str(v.3) + enc_str(v.4)
}

/// Accumulates the fields of the current row and the rows already finished.
pub struct RowWriter {
    buffer: Vec<u8>,
    output: Vec<u8>,
    row_count: u64,
}

impl RowWriter {
    /// The bytes of the row being written.
    pub closed spec fn pending(&self) -> Seq<u8> {
        self.buffer@
    }

    /// The bytes of the finished rows.
    pub closed spec fn written(&self) -> Seq<u8> {
        self.output@
    }

    /// The number of finished rows.
    pub closed spec fn rows(&self) -> u64 {
        self.row_count
    }

    pub fn new() -> (r: Self)
        ensures
            r.pending() == Seq::<u8>::empty(),
            r.written() == Seq::<u8>::empty(),
            r.rows() == 0,
    {
        RowWriter { buffer: Vec::new(), output: Vec::new(), row_count: 0 }
    }

    pub fn row_count(&self) -> (r: u64)
        ensures
            r == self.rows(),
    {
        self.row_count
    }

    /// The bytes of the finished rows, to be handed to a sink.
    pub fn output(&self) -> (r: &Vec<u8>)
        ensures
            r@ == self.written(),
    {
        &self.output
    }

    /// Finishes the current row: its bytes move to the output and the row is
    /// counted.
    pub fn row_done(&mut self) -> (r: Result<(), RowError>)
        requires
            old(self).rows() < u64::MAX,
        ensures
            r is Ok,
            final(self).written() == old(self).written() + old(self).pending(),
            final(self).pending() == Seq::<u8>::empty(),
            final(self).rows() == old(self).rows() + 1,
    {
        self.output.append(&mut self.buffer);
        self.row_count = self.row_count + 1;
        Ok(())
    }

    pub fn write_byte(&mut self, byte: u8)
        ensures
            final(self).pending() == old(self).pending().push(byte),
            final(self).written() == old(self).written(),
            final(self).rows() == old(self).rows(),
    {
        self.buffer.push(byte);
    }

    fn append_bytes(&mut self, bytes: &[u8])
        ensures
            final(self).pending() == old(self).pending() + bytes@,
            final(self).written() == old(self).written(),
            final(self).rows() == old(self).rows(),
    {
        let mut i: usize = 0;
        let ghost start = self.buffer@;
        while i < bytes.len()
            invariant
                i <= bytes.len(),
                self.buffer@ == start + bytes@.subrange(0, i as int),
                self.output@ == old(self).output@,
                self.row_count == old(self).row_count,
            decreases bytes.len() - i,
        {
            self.buffer.push(bytes[i]);
            i = i + 1;
            assert(bytes@.subrange(0, i as int) =~= bytes@.subrange(0, i - 1).push(bytes@[i - 1]));
        }
        assert(bytes@.subrange(0, bytes.len() as int) =~= bytes@);
    }

    pub fn write_u64(&mut self, value: u64) -> (r: Result<(), RowError>)
        ensures
            r is Ok,
            final(self).pending() == old(self).pending() + enc_u64(value),
            final(self).written() == old(self).written(),
            final(self).rows() == old(self).rows(),
    {
        let encoded = vlen_encode(value);
        self.append_bytes(encoded.as_slice());
        Ok(())
    }

    pub fn write_str(&mut self, s: &str) -> (r: Result<(), RowError>)
        ensures
            r is Ok,
            final(self).pending() == old(self).pending() + enc_str(s@),
            final(self).written() == old(self).written(),
            final(self).rows() == old(self).rows(),
    {
        let bytes = s.as_bytes();
        let len = bytes.len();
        let n = len as u64;
        assert(bytes@ == utf8(s@));
        let ghost before = self.pending();
        let _ = self.write_u64(n);
        self.append_bytes(bytes);
        assert(self.pending() =~= before + (vlen_encoding(n) + utf8(s@)));
        Ok(())
    }

    pub fn write_bool(&mut self, value: bool)
        ensures
            final(self).pending() == old(self).pending() + enc_bool(value),
            final(self).written() == old(self).written(),
            final(self).rows() == old(self).rows(),
    {
        self.buffer.push(if value { 1u8 } else { 0u8 });
        assert(self.buffer@ =~= old(self).buffer@ + enc_bool(value));
    }

    pub fn write_optional_u64(&mut self, value: Option<u64>) -> (r: Result<(), RowError>)
        ensures
            r is Ok,
            final(self).pending() == old(self).pending() + enc_opt_u64(value),
            final(self).written() == old(self).written(),
            final(self).rows() == old(self).rows(),
    {
        match value {
            Some(v) => {
                self.write_byte(1);
                let _ = self.write_u64(v);
                assert(self.pending() =~= old(self).pending() + enc_opt_u64(value));
                Ok(())
            },
            None => {
                self.write_byte(0);
                assert(self.pending() =~= old(self).pending() + enc_opt_u64(value));
                Ok(())
            },
        }
    }

    /// Stores a decimal cell as an integer field.
    pub fn write_str_as_u64(&mut self, s: &str) -> (r: Result<(), RowError>)
        ensures
            final(self).written() == old(self).written(),
            final(self).rows() == old(self).rows(),
            match parse_unsigned(s@, u64::MAX as int) {
                Some(v) => r is Ok && final(self).pending() == old(self).pending() + enc_u64(v as u64),
                None => (r matches Err(RowError::InvalidInteger(t)) && t@ == s@)
                    && final(self).pending() == old(self).pending(),
            },
    {
        let c = crate::text::chars_of(s);
        match parse_unsigned_chars(&c, u64::MAX) {
            Some(v) => self.write_u64(v),
            None => Err(RowError::InvalidInteger(s.to_owned())),
        }
    }

    /// Stores a decimal cell as a single byte.
    pub fn write_str_as_byte(&mut self, s: &str) -> (r: Result<(), RowError>)
        ensures
            final(self).written() == old(self).written(),
            final(self).rows() == old(self).rows(),
            match parse_unsigned(s@, u8::MAX as int) {
                Some(v) => r is Ok && final(self).pending() == old(self).pending().push(v as u8),
                None => (r matches Err(RowError::InvalidByte(t)) && t@ == s@)
                    && final(self).pending() == old(self).pending(),
            },
    {
        let c = crate::text::chars_of(s);
        match parse_unsigned_chars(&c, 255) {
            Some(v) => {
                self.write_byte(v as u8);
                Ok(())
            },
            None => Err(RowError::InvalidByte(s.to_owned())),
        }
    }

    /// Stores an optional decimal cell: the empty text is absent.
    pub fn write_optional_str_as_u64(&mut self, s: &str) -> (r: Result<(), RowError>)
        ensures
            final(self).written() == old(self).written(),
            final(self).rows() == old(self).rows(),
            s@.len() == 0 ==> r is Ok && final(self).pending() == old(self).pending() + enc_opt_u64(None),
            s@.len() != 0 ==> match parse_unsigned(s@, u64::MAX as int) {
                Some(v) => r is Ok && final(self).pending() == old(self).pending() + enc_opt_u64(Some(v as u64)),
                None => (r matches Err(RowError::InvalidInteger(t)) && t@ == s@)
                    && final(self).pending() == old(self).pending(),
            },
    {
        if s.is_empty() {
            self.write_byte(0);
            assert(self.pending() =~= old(self).pending() + enc_opt_u64(None));
            return Ok(());
        }
        let c = crate::text::chars_of(s);
        match parse_unsigned_chars(&c, u64::MAX) {
            Some(v) => self.write_optional_u64(Some(v)),
            None => Err(RowError::InvalidInteger(s.to_owned())),
        }
    }

    /// Stores an optional text: the empty text is absent.
    pub fn write_optional_str(&mut self, s: &str) -> (r: Result<(), RowError>)
        ensures
            r is Ok,
            final(self).written() == old(self).written(),
            final(self).rows() == old(self).rows(),
            s@.len() == 0 ==> final(self).pending() == old(self).pending().push(0u8),
            s@.len() != 0 ==> final(self).pending() == old(self).pending().push(1u8) + enc_str(s@),
    {
        if s.is_empty() {
            self.write_byte(0);
            Ok(())
        } else {
            self.write_byte(1);
            self.write_str(s)
        }
    }

    /// Stores an optional boolean as one byte: absent 0, false 1, true 2.
    pub fn write_optional_bool(&mut self, value: Option<bool>)
        ensures
            final(self).written() == old(self).written(),
            final(self).rows() == old(self).rows(),
            final(self).pending() == old(self).pending().push(
                match value { None => 0u8, Some(false) => 1u8, Some(true) => 2u8 }),
    {
        let byte: u8 = match value {
            None => 0,
            Some(false) => 1,
            Some(true) => 2,
        };
        self.buffer.push(byte);
    }

    /// Stores a timestamp cell as seconds since the epoch (see `pg_timestamp`).
    pub fn write_str_as_datetime(&mut self, s: &str) -> (r: Result<(), RowError>)
        ensures
            pg_timestamp(s@) matches Some(t) ==> crate::row_reader::datetime_ok(t),
            final(self).written() == old(self).written(),
            final(self).rows() == old(self).rows(),
            match pg_timestamp(s@) {
                Some(t) => r is Ok && final(self).pending() == old(self).pending() + enc_u64(t),
                None => (r matches Err(RowError::InvalidTimestamp(t)) && t@ == s@)
                    && final(self).pending() == old(self).pending(),
            },
    {
        match parse_pg_timestamp(s) {
            Some(t) => self.write_u64(t),
            None => Err(RowError::InvalidTimestamp(s.to_owned())),
        }
    }

    /// Stores a date cell as days since 1970-01-01 (see `pg_date`).
    pub fn write_str_as_date(&mut self, s: &str) -> (r: Result<(), RowError>)
        ensures
            final(self).written() == old(self).written(),
            final(self).rows() == old(self).rows(),
            match pg_date(s@) {
                Some(d) => r is Ok && final(self).pending() == old(self).pending() + enc_u64(d),
                None => (r matches Err(RowError::InvalidDate(t)) && t@ == s@)
                    && final(self).pending() == old(self).pending(),
            },
    {
        match parse_pg_date(s) {
            Some(d) => self.write_u64(d),
            None => Err(RowError::InvalidDate(s.to_owned())),
        }
    }

    /// Stores a URL cell as text (see `pg_url`).
    pub fn write_str_as_url(&mut self, s: &str) -> (r: Result<(), RowError>)
        ensures
            final(self).written() == old(self).written(),
            final(self).rows() == old(self).rows(),
            match pg_url(s@) {
                Some(u) => r is Ok && final(self).pending() == old(self).pending() + enc_str(u),
                None => (r matches Err(RowError::InvalidUrl(t)) && t@ == s@)
                    && final(self).pending() == old(self).pending(),
            },
    {
        match normalize_url(s) {
            Some(u) => self.write_str(u.as_str()),
            None => Err(RowError::InvalidUrl(s.to_owned())),
        }
    }

    /// Stores a boolean cell (see `pg_bool`).
    pub fn write_str_as_bool(&mut self, s: &str) -> (r: Result<(), RowError>)
        ensures
            final(self).written() == old(self).written(),
            final(self).rows() == old(self).rows(),
            match pg_bool(s@) {
                Some(b) => r is Ok && final(self).pending() == old(self).pending() + enc_bool(b),
                None => (r matches Err(RowError::InvalidBool(t)) && t@ == s@)
                    && final(self).pending() == old(self).pending(),
            },
    {
        match parse_pg_bool(s) {
            Some(b) => {
                self.write_bool(b);
                Ok(())
            },
            None => Err(RowError::InvalidBool(s.to_owned())),
        }
    }

    /// Stores a version cell as its three numbers and two texts.
    pub fn write_str_as_version(&mut self, s: &str) -> (r: Result<(), RowError>)
        ensures
            final(self).written() == old(self).written(),
            final(self).rows() == old(self).rows(),
            match pg_version(s@) {
                Some(v) => r is Ok && final(self).pending() == old(self).pending() + enc_version(v),
                None => (r matches Err(RowError::InvalidVersion(t)) && t@ == s@)
                    && final(self).pending() == old(self).pending(),
            },
    {
        match parse_version(s) {
            Some((major, minor, patch, pre, build)) => {
                let ghost before = self.pending();
                let _ = self.write_u64(major);
                let _ = self.write_u64(minor);
                let _ = self.write_u64(patch);
                let _ = self.write_str(pre.as_str());
                let _ = self.write_str(build.as_str());
                assert(self.pending() =~= before + enc_version((major, minor, patch, pre@, build@)));
                Ok(())
            },
            None => Err(RowError::InvalidVersion(s.to_owned())),
        }
    }

    /// Stores an array literal cell as a string list (see `pg_array`).
    pub fn write_pg_array_as_str_vec(&mut self, s: &str) -> (r: Result<(), RowError>)
        ensures
            final(self).written() == old(self).written(),
            final(self).rows() == old(self).rows(),
            match pg_array(s@) {
                Some(items) => r is Ok && final(self).pending() == old(self).pending() + enc_str_vec(items),
                None => (r matches Err(RowError::InvalidArray(t)) && t@ == s@)
                    && final(self).pending() == old(self).pending(),
            },
    {
        match parse_pg_array(s) {
            Some(pieces) => {
                let ghost items = pg_array(s@)->0;
                let ghost before = self.pending();
                let _ = self.write_u64(pieces.len() as u64);
                let mut i: usize = 0;
                while i < pieces.len()
                    invariant
                        i <= pieces@.len(),
                        pieces@.len() == items.len(),
                        forall|k: int| 0 <= k < items.len() ==> #[trigger] pieces@[k]@ == items[k],
                        self.pending() == before + vlen_encoding(items.len() as u64)
                            + enc_str_list(items.subrange(0, i as int)),
                        self.written() == old(self).written(),
                        self.rows() == old(self).rows(),
                    decreases pieces@.len() - i,
                {
                    let ghost prev = self.pending();
                    let _ = self.write_str(pieces[i].as_str());
                    assert(items.subrange(0, i + 1).drop_last() =~= items.subrange(0, i as int));
                    i = i + 1;
                    assert(self.pending() =~= before + vlen_encoding(items.len() as u64)
                        + enc_str_list(items.subrange(0, i as int)));
                }
                assert(items.subrange(0, items.len() as int) =~= items);
                assert(self.pending() =~= before + enc_str_vec(items));
                Ok(())
            },
            None => Err(RowError::InvalidArray(s.to_owned())),
        }
    }
}

} // verus!
