//! The greeting, and the owned string that carries it to the caller.
//!
//! The caller lends the name as a byte buffer that ends at its first NUL
//! byte, or `None` where it has no name to give. A greeting goes back as a
//! `TransferredString`: a null-terminated, well-formed UTF-8 byte string that
//! the caller owns until it hands it to `free_string`. The handle is moved
//! into that call, so it is released exactly once and cannot be used after.
use vstd::prelude::*;
use vstd::utf8::*;
use vstd::string::*;

use vstd::slice::slice_subrange;

use crate::utf8_check::{is_valid_utf8, lemma_decode_concat};

verus! {

broadcast use is_ascii_spec_bytes;

/// The language of the greeting's fixed text.
#[derive(Clone, Copy, Debug, PartialEq, Eq, Structural)]
pub enum Language {
    English,
    Italian,
}

/// The fixed text before the name.
pub open spec fn greeting_prefix(lang: Language) -> Seq<char> {
    match lang {
        Language::English => "Hello, "@,
        Language::Italian => "Ciao, "@,
    }
}

/// The fixed text after the name.
pub open spec fn greeting_suffix(lang: Language) -> Seq<char> {
    match lang {
        Language::English => "! Welcome to the Bun+Rust FFI application!"@,
        Language::Italian => "! Benvenuto nell'applicazione Bun+Rust FFI!"@,
    }
}

/// The greeting for `name` in `lang`.
pub open spec fn greeting_text(lang: Language, name: Seq<char>) -> Seq<char> {
    greeting_prefix(lang) + name + greeting_suffix(lang)
}

/// No byte of `s` is NUL.
pub open spec fn nul_free(s: Seq<u8>) -> bool {
    forall|i: int| 0 <= i < s.len() ==> s[i] != 0
}

proof fn lemma_ascii_nul_free(s: &str)
    requires
        is_ascii(s),
        forall|i: int| 0 <= i < s@.len() ==> s@[i] != '\0',
    ensures
        nul_free(s.spec_bytes()),
{
}

fn prefix_of(lang: Language) -> (r: &'static str)
    ensures
        r@ == greeting_prefix(lang),
        nul_free(r.spec_bytes()),
{
    match lang {
        Language::English => {
            let s = "Hello, ";
            proof {
                reveal_strlit("Hello, ");
                lemma_ascii_nul_free(s);
            }
            s
        },
        Language::Italian => {
            let s = "Ciao, ";
            proof {
                reveal_strlit("Ciao, ");
                lemma_ascii_nul_free(s);
            }
            s
        },
    }
}

fn suffix_of(lang: Language) -> (r: &'static str)
    ensures
        r@ == greeting_suffix(lang),
        nul_free(r.spec_bytes()),
{
    match lang {
        Language::English => {
            let s = "! Welcome to the Bun+Rust FFI application!";
            proof {
                reveal_strlit("! Welcome to the Bun+Rust FFI application!");
                lemma_ascii_nul_free(s);
            }
            s
        },
        Language::Italian => {
            let s = "! Benvenuto nell'applicazione Bun+Rust FFI!";
            proof {
                reveal_strlit("! Benvenuto nell'applicazione Bun+Rust FFI!");
                lemma_ascii_nul_free(s);
            }
            s
        },
    }
}

/// Index of the first NUL byte of `s` at or after `from`, or `s.len()` where
/// there is none.
pub open spec fn nul_index_from(s: Seq<u8>, from: int) -> int
    decreases s.len() - from,
{
    if from >= s.len() {
        s.len() as int
    } else if s[from] == 0 {
        from
    } else {
        nul_index_from(s, from + 1)
    }
}

/// The name that a borrowed buffer holds: its bytes before the first NUL
/// (all of them, where it holds none).
pub open spec fn name_bytes(buf: Seq<u8>) -> Seq<u8> {
    buf.take(nul_index_from(buf, 0))
}

/// The bytes of the greeting for a name given as the bytes `name`.
pub open spec fn greeting_bytes(lang: Language, name: Seq<u8>) -> Seq<u8> {
    encode_utf8(greeting_prefix(lang)) + name + encode_utf8(greeting_suffix(lang))
}

/// A string allocated by this library and owned by the caller: well-formed
/// UTF-8 without NUL bytes, stored with one NUL byte after it.
pub struct TransferredString {
    bytes: Vec<u8>,
}

impl View for TransferredString {
    type V = Seq<u8>;

    /// The string's bytes, without the terminating NUL.
    closed spec fn view(&self) -> Seq<u8> {
        self.bytes@.drop_last()
    }
}

impl TransferredString {
    #[verifier::type_invariant]
    spec fn well_formed(self) -> bool {
        &&& self.bytes@.len() > 0
        &&& self.bytes@.last() == 0
        &&& valid_utf8(self.bytes@.drop_last())
        &&& nul_free(self.bytes@.drop_last())
    }

    /// The text that the string holds.
    pub open spec fn text(&self) -> Seq<char> {
        decode_utf8(self@)
    }

    /// The string's bytes followed by its terminating NUL.
    pub fn as_bytes_with_nul(&self) -> (r: &[u8])
        ensures
            r@ == self@.push(0),
            valid_utf8(self@),
            nul_free(self@),
    {
        proof {
            use_type_invariant(self);
            assert(self.bytes@ =~= self@.push(0));
        }
        self.bytes.as_slice()
    }

    /// Gives up the handle for its bytes, terminating NUL included; whoever
    /// holds them is then responsible for the allocation.
    pub fn into_bytes_with_nul(self) -> (r: Vec<u8>)
        ensures
            r@ == self@.push(0),
            valid_utf8(self@),
            nul_free(self@),
    {
        proof {
            use_type_invariant(&self);
            assert(self.bytes@ =~= self@.push(0));
        }
        self.bytes
    }
}

/// Appends `src` to `out`.
fn append(out: &mut Vec<u8>, src: &[u8])
    ensures
        final(out)@ == old(out)@ + src@,
{
    let mut i: usize = 0;
    while i < src.len()
        invariant
            i <= src@.len(),
            out@ == old(out)@ + src@.take(i as int),
        decreases src@.len() - i,
    {
        out.push(src[i]);
        i = i + 1;
        assert(src@.take(i as int) =~= src@.take(i - 1) + seq![src@[i - 1]]);
        assert(out@ =~= old(out)@ + src@.take(i as int));
    }
    assert(src@.take(i as int) =~= src@);
}

/// Length of the name in `buf`: the index of its first NUL byte, or its
/// length where it holds none.
fn name_len(buf: &[u8]) -> (n: usize)
    ensures
        n as int == nul_index_from(buf@, 0),
        n <= buf@.len(),
        nul_free(buf@.take(n as int)),
{
    let mut n: usize = 0;
    while n < buf.len() && buf[n] != 0
        invariant
            n <= buf@.len(),
            nul_index_from(buf@, 0) == nul_index_from(buf@, n as int),
            forall|j: int| 0 <= j < n ==> buf@[j] != 0,
        decreases buf@.len() - n,
    {
        n = n + 1;
    }
    n
}

/// Greets the name held in `name`, in `lang`.
///
/// `None` stands for a null reference and gives `None`. Otherwise the name is
/// the bytes before the buffer's first NUL; where they are not well-formed
/// UTF-8 the result is `None`, and else a newly allocated string holding the
/// greeting, which the caller owns and releases through `free_string`.
pub fn greet_in(lang: Language, name: Option<&[u8]>) -> (r: Option<TransferredString>)
    ensures
        name is None ==> r is None,
        name is Some ==> (r is Some <==> valid_utf8(name_bytes(name->0@))),
        r is Some ==> r->0@ == greeting_bytes(lang, name_bytes(name->0@)),
        r is Some ==> r->0.text() == greeting_text(lang, decode_utf8(name_bytes(name->0@))),
{
    let buf = match name {
        None => {
            return None;
        },
        Some(b) => b,
    };
    let n = name_len(buf);
    let who = slice_subrange(buf, 0, n);
    if !is_valid_utf8(who) {
        return None;
    }
    let prefix = prefix_of(lang).as_bytes();
    let suffix = suffix_of(lang).as_bytes();
    let mut bytes: Vec<u8> = Vec::new();
    append(&mut bytes, prefix);
    append(&mut bytes, who);
    append(&mut bytes, suffix);
    let ghost content = bytes@;
    proof {
        let p = greeting_prefix(lang);
        let s = greeting_suffix(lang);
        assert(who@ =~= name_bytes(buf@));
        assert(content == greeting_bytes(lang, who@));
        encode_utf8_valid_utf8(p);
        encode_utf8_valid_utf8(s);
        encode_utf8_decode_utf8(p);
        encode_utf8_decode_utf8(s);
        lemma_decode_concat(encode_utf8(p), who@);
        lemma_decode_concat(encode_utf8(p) + who@, encode_utf8(s));
        assert(decode_utf8(content) =~= greeting_text(lang, decode_utf8(who@)));
        assert forall|i: int| 0 <= i < content.len() implies content[i] != 0 by {
            if i >= prefix@.len() && i < prefix@.len() + who@.len() {
                assert(content[i] == who@[i - prefix@.len()]);
            }
        }
    }
    bytes.push(0);
    assert(bytes@.drop_last() =~= content);
    Some(TransferredString { bytes })
}

/// Greets the name held in `name` in English; see `greet_in`.
pub fn greet(name: Option<&[u8]>) -> (r: Option<TransferredString>)
    ensures
        name is None ==> r is None,
        name is Some ==> (r is Some <==> valid_utf8(name_bytes(name->0@))),
        r is Some ==> r->0@ == greeting_bytes(Language::English, name_bytes(name->0@)),
        r is Some ==> r->0.text() == greeting_text(
            Language::English,
            decode_utf8(name_bytes(name->0@)),
        ),
{
    greet_in(Language::English, name)
}

/// Releases a string that `greet` or `greet_in` handed out; `None`, which
/// stands for a null reference, is a no-op. The handle is moved in, so a
/// string is released once and cannot be used afterwards.
pub fn free_string(s: Option<TransferredString>) {
    match s {
        Some(_owned) => {
            // `_owned` goes out of scope here, which returns its buffer to
            // the allocator that made it.
        },
        None => {},
    }
}

} // verus!
