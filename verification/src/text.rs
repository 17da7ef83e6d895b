//! Text assembly on top of `string_builder::Builder`.
//!
//! The builder is an opaque byte buffer. This module states what its three
//! operations do to the buffered bytes and, on top of that, offers
//! [`TextBuilder`], whose contracts speak of characters instead of bytes.

use vstd::prelude::*;
use vstd::utf8::*;

verus! {

/// `string_builder::Builder`, a growable byte buffer. Nothing is known of
/// a builder but what the functions below state.
#[verifier::external_type_specification]
#[verifier::external_body]
pub struct ExBuilder(string_builder::Builder);

/// `std::string::FromUtf8Error`, the error of `String::from_utf8`. It is
/// only carried through.
#[verifier::external_type_specification]
#[verifier::external_body]
pub struct ExFromUtf8Error(std::string::FromUtf8Error);

/// The bytes that a `string_builder::Builder` holds, in the order in which
/// they were appended.
pub uninterp spec fn builder_bytes(b: string_builder::Builder) -> Seq<u8>;

/// `Builder::default()`: a builder that holds no bytes yet.
#[verifier::external_body]
fn builder_default() -> (b: string_builder::Builder)
    ensures
        builder_bytes(b) == Seq::<u8>::empty(),
{
    string_builder::Builder::default()
}

/// `Builder::append` with a string slice: the UTF-8 encoding of `text` is
/// written behind the bytes already held. Nothing else changes.
#[verifier::external_body]
fn builder_append(b: &mut string_builder::Builder, text: &str)
    ensures
        builder_bytes(*final(b)) == builder_bytes(*old(b)) + encode_utf8(text@),
{
    b.append(text)
}

/// `Builder::string()`: hands the buffer to `String::from_utf8`. The result
/// is `Ok` exactly when the bytes are valid UTF-8, and the string then
/// consists of those bytes.
#[verifier::external_body]
fn builder_string(b: string_builder::Builder) -> (res: Result<String, std::string::FromUtf8Error>)
    ensures
        match res {
            Ok(s) => valid_utf8(builder_bytes(b)) && encode_utf8(s@) == builder_bytes(b),
            Err(_) => !valid_utf8(builder_bytes(b)),
        },
{
    b.string()
}

/// Encoding distributes over concatenation.
pub proof fn lemma_encode_utf8_concat(a: Seq<char>, b: Seq<char>)
    ensures
        encode_utf8(a + b) == encode_utf8(a) + encode_utf8(b),
    decreases a.len(),
{
    if a.len() == 0 {
        assert(a + b =~= b);
        assert(encode_utf8(a) + encode_utf8(b) =~= encode_utf8(b));
    } else {
        assert((a + b).drop_first() =~= a.drop_first() + b);
        lemma_encode_utf8_concat(a.drop_first(), b);
        assert(encode_utf8(a + b) =~= encode_utf8(a) + encode_utf8(b));
    }
}

/// Appending encoded text to valid bytes appends the text to what the bytes
/// decode to.
pub proof fn lemma_decode_utf8_append(bytes: Seq<u8>, text: Seq<char>)
    requires
        valid_utf8(bytes),
    ensures
        valid_utf8(bytes + encode_utf8(text)),
        decode_utf8(bytes + encode_utf8(text)) == decode_utf8(bytes) + text,
{
    encode_utf8_valid_utf8(text);
    valid_utf8_concat(bytes, encode_utf8(text));
    decode_utf8_encode_utf8(bytes);
    lemma_encode_utf8_concat(decode_utf8(bytes), text);
    encode_utf8_decode_utf8(decode_utf8(bytes) + text);
}

/// An append-only text buffer. Its view is the text appended so far.
pub struct TextBuilder {
    inner: string_builder::Builder,
}

impl View for TextBuilder {
    type V = Seq<char>;

    closed spec fn view(&self) -> Seq<char> {
        decode_utf8(builder_bytes(self.inner))
    }
}

impl TextBuilder {
    /// The buffer holds text: every constructor establishes this and every
    /// method keeps it.
    pub closed spec fn wf(&self) -> bool {
        valid_utf8(builder_bytes(self.inner))
    }

    /// An empty buffer.
    pub fn new() -> (tb: TextBuilder)
        ensures
            tb.wf(),
            tb@ == Seq::<char>::empty(),
    {
        let inner = builder_default();
        assert(decode_utf8(Seq::<u8>::empty()) =~= Seq::<char>::empty());
        TextBuilder { inner }
    }

    /// Appends `text`.
    pub fn push_str(&mut self, text: &str)
        requires
            old(self).wf(),
        ensures
            final(self).wf(),
            final(self)@ == old(self)@ + text@,
    {
        proof {
            lemma_decode_utf8_append(builder_bytes(self.inner), text@);
        }
        builder_append(&mut self.inner, text);
    }

    /// Appends `text` `count` times.
    pub fn push_repeated(&mut self, text: &str, count: u128)
        requires
            old(self).wf(),
        ensures
            final(self).wf(),
            final(self)@ == old(self)@ + repeated(text@, count as nat),
    {
        let mut done: u128 = 0;
        assert(old(self)@ + repeated(text@, 0) =~= old(self)@);
        while done < count
            invariant
                done <= count,
                self.wf(),
                self@ == old(self)@ + repeated(text@, done as nat),
            decreases count - done,
        {
            self.push_str(text);
            done = done + 1;
            assert(old(self)@ + repeated(text@, (done - 1) as nat) + text@ =~= old(self)@ + repeated(
                text@,
                done as nat,
            ));
        }
    }

    /// The text appended so far, as a string.
    pub fn finish(self) -> (s: String)
        requires
            self.wf(),
        ensures
            s@ == self@,
    {
        let res = builder_string(self.inner);
        proof {
            if res is Ok {
                encode_utf8_decode_utf8(res->Ok_0@);
            }
        }
        res.unwrap()
    }
}

/// The texts that a sequence of strings holds.
pub open spec fn texts(strings: Seq<String>) -> Seq<Seq<char>> {
    Seq::new(strings.len(), |i: int| strings[i]@)
}

/// `unit` written `count` times in a row.
pub open spec fn repeated(unit: Seq<char>, count: nat) -> Seq<char>
    decreases count,
{
    if count == 0 {
        Seq::<char>::empty()
    } else {
        repeated(unit, (count - 1) as nat) + unit
    }
}

/// The characters of a string slice.
pub fn chars_of(text: &str) -> (chars: Vec<char>)
    ensures
        chars@ == text@,
{
    let mut chars: Vec<char> = Vec::new();
    for c in it: text.chars()
        invariant
            it.seq() == text@,
            chars@ == text@.take(it.index()),
    {
        chars.push(c);
        assert(text@.take(it.index() + 1) =~= text@.take(it.index()).push(c));
    }
    assert(text@.take(text@.len() as int) =~= text@);
    chars
}

/// Whether two string slices hold the same text.
pub fn same_text(a: &str, b: &str) -> (same: bool)
    ensures
        same == (a@ == b@),
{
    let x = a.as_bytes();
    let y = b.as_bytes();
    proof {
        encode_utf8_decode_utf8(a@);
        encode_utf8_decode_utf8(b@);
    }
    if x.len() != y.len() {
        return false;
    }
    let mut i: usize = 0;
    while i < x.len()
        invariant
            i <= x.len(),
            x.len() == y.len(),
            x@ == encode_utf8(a@),
            y@ == encode_utf8(b@),
            forall|k: int| 0 <= k < i ==> x@[k] == y@[k],
        decreases x.len() - i,
    {
        if x[i] != y[i] {
            return false;
        }
        i = i + 1;
    }
    assert(x@ =~= y@);
    true
}

} // verus!
