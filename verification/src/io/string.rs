//! The fixed-length string: 64 bytes of UTF-8, padded on the right with
//! spaces.

use vstd::prelude::*;
use vstd::string::*;
use vstd::utf8::*;
use crate::io::{append_bytes, Cursor, Error, Readable, WireValue, Writeable};

verus! {

/// The number of bytes that a string takes on the wire.
pub const STRING_LENGTH: usize = 64;

/// `s` without the spaces at its end.
pub open spec fn trim_end_spaces(s: Seq<char>) -> Seq<char>
    decreases s.len(),
{
    if s.len() > 0 && s.last() == ' ' {
        trim_end_spaces(s.drop_last())
    } else {
        s
    }
}

/// `n` space characters.
pub open spec fn spaces(n: nat) -> Seq<char> {
    Seq::new(n, |i: int| ' ')
}

/// `n` space bytes.
pub open spec fn padding(n: nat) -> Seq<u8> {
    Seq::new(n, |i: int| 0x20u8)
}

/// Whether `s` ends with a space.
pub open spec fn ends_with_space(s: Seq<char>) -> bool {
    s.len() > 0 && s.last() == ' '
}

/// `core::str::from_utf8`: the bytes as a string slice where they are valid
/// UTF-8, and nothing where they are not. The slice it gives is made of
/// exactly the bytes it was given.
#[verifier::external_body]
fn str_from_utf8<'a>(bytes: &'a [u8]) -> (r: Option<&'a str>)
    ensures
        r is Some <==> valid_utf8(bytes@),
        r is Some ==> encode_utf8(r->Some_0@) == bytes@,
{
    match core::str::from_utf8(bytes) {
        Ok(text) => Some(text),
        Err(_) => None,
    }
}

/// Encoding goes through concatenation.
pub proof fn lemma_encode_concat(a: Seq<char>, b: Seq<char>)
    ensures
        encode_utf8(a + b) == encode_utf8(a) + encode_utf8(b),
    decreases a.len(),
{
    if a.len() > 0 {
        lemma_encode_concat(a.drop_first(), b);
        assert((a + b).drop_first() == a.drop_first() + b);
    }
}

/// Spaces encode as space bytes.
pub proof fn lemma_encode_spaces(n: nat)
    ensures
        encode_utf8(spaces(n)) == padding(n),
{
    is_ascii_chars_encode_utf8(spaces(n));
}

/// Trimming takes off the spaces that were put behind a string that does not
/// end with one.
pub proof fn lemma_trim_spaces(s: Seq<char>, n: nat)
    requires
        !ends_with_space(s),
    ensures
        trim_end_spaces(s + spaces(n)) == s,
    decreases n,
{
    if n > 0 {
        lemma_trim_spaces(s, (n - 1) as nat);
        assert((s + spaces(n)).drop_last() == s + spaces((n - 1) as nat));
    }
}

impl Readable for String {
    open spec fn parse(bytes: Seq<u8>) -> Result<(Seq<char>, nat), Error> {
        let window = bytes.take(STRING_LENGTH as int);
        if bytes.len() < STRING_LENGTH {
            Err(Error::UnexpectedEof)
        } else if !valid_utf8(window) {
            Err(Error::InvalidUtf8)
        } else {
            Ok((trim_end_spaces(decode_utf8(window)), STRING_LENGTH as nat))
        }
    }

    fn read(buffer: &mut Cursor<'_>) -> (r: Result<Self, Error>) {
        let window = buffer.take(STRING_LENGTH)?;
        let text = match str_from_utf8(window) {
            Some(t) => t,
            None => {
                return Err(Error::InvalidUtf8);
            },
        };
        proof {
            encode_utf8_decode_utf8(text@);
        }
        let mut end = text.unicode_len();
        assert(text@.take(end as int) == text@);
        while end > 0
            invariant
                end <= text@.len(),
                trim_end_spaces(text@) == trim_end_spaces(text@.take(end as int)),
            ensures
                end <= text@.len(),
                trim_end_spaces(text@) == text@.take(end as int),
            decreases end,
        {
            if text.get_char(end - 1) != ' ' {
                break;
            }
            assert(text@.take(end as int).drop_last() == text@.take(end - 1));
            end = end - 1;
        }
        let trimmed = text.substring_char(0, end);
        Ok(trimmed.to_owned())
    }
}

impl Writeable for String {
    open spec fn wire(v: Seq<char>) -> Seq<u8> {
        encode_utf8(v) + padding((STRING_LENGTH - encode_utf8(v).len()) as nat)
    }

    open spec fn write_error(v: Seq<char>) -> Option<Error> {
        if encode_utf8(v).len() > STRING_LENGTH {
            Some(Error::StringTooLong)
        } else {
            None
        }
    }

    fn write(&self, buffer: &mut Vec<u8>) -> (r: Result<(), Error>) {
        let bytes = self.as_str().as_bytes();
        let used = bytes.len();
        if used > STRING_LENGTH {
            return Err(Error::StringTooLong);
        }
        append_bytes(buffer, bytes);
        let mut i = used;
        while i < STRING_LENGTH
            invariant
                used <= i <= STRING_LENGTH,
                buffer@ == old(buffer)@ + bytes@ + padding((i - used) as nat),
            decreases STRING_LENGTH - i,
        {
            buffer.push(0x20);
            i = i + 1;
        }
        Ok(())
    }
}

impl WireValue for String {
    /// A string of at most 64 bytes that does not end with a space: the
    /// padding could not be told from a space of its own.
    open spec fn canonical(v: Seq<char>) -> bool {
        encode_utf8(v).len() <= STRING_LENGTH && !ends_with_space(v)
    }

    proof fn lemma_canonical_writes(v: Seq<char>) {
    }

    proof fn lemma_round_trip(v: Seq<char>, rest: Seq<u8>) {
        let n = (STRING_LENGTH - encode_utf8(v).len()) as nat;
        let padded = v + spaces(n);
        lemma_encode_concat(v, spaces(n));
        lemma_encode_spaces(n);
        assert((Self::wire(v) + rest).take(STRING_LENGTH as int) == Self::wire(v));
        encode_utf8_valid_utf8(padded);
        encode_utf8_decode_utf8(padded);
        lemma_trim_spaces(v, n);
    }

    proof fn lemma_prefix_incomplete(v: Seq<char>, k: int) {
    }
}

} // verus!
