//! Content addressing: the local file name under which a remote image is
//! kept, derived from the reference string alone.
//!
//! The name is the BLAKE3 digest of the reference, in lower-case hexadecimal,
//! followed by a dot and the reference's own extension. Two references that
//! differ in a single character get different names even when they point at
//! the same picture; the same reference always gets the same name, which is
//! how an image that was stored before is recognised.

use crate::text::{
    after_last, after_last_start, chars_of, ends_with, last_index_of, starts_with,
};
use vstd::prelude::*;
use vstd::string::*;

verus! {

/// The BLAKE3 digest of `input`.
pub uninterp spec fn blake3_digest(input: Seq<u8>) -> Seq<u8>;

/// The sixteen lower-case hexadecimal digits, by value.
pub open spec fn hex_digits() -> Seq<char> {
    seq!['0', '1', '2', '3', '4', '5', '6', '7', '8', '9', 'a', 'b', 'c', 'd', 'e', 'f']
}

/// `bytes` in lower-case hexadecimal: two digits for each byte, the high
/// half first.
pub open spec fn hex_lower(bytes: Seq<u8>) -> Seq<char> {
    Seq::new(
        2 * bytes.len(),
        |i: int|
            if i % 2 == 0 {
                hex_digits()[bytes[i / 2] as int / 16]
            } else {
                hex_digits()[bytes[i / 2] as int % 16]
            },
    )
}

/// Whether a reference names an image the crawler keeps: not an inline
/// `data:` reference, and ending in one of the three known extensions,
/// compared character by character.
pub open spec fn supported_reference(name: Seq<char>) -> bool {
    &&& !"data:"@.is_prefix_of(name)
    &&& (".jpg"@.is_suffix_of(name) || ".png"@.is_suffix_of(name) || ".webp"@.is_suffix_of(name))
}

/// The encodings in which the crawler keeps images.
#[derive(Clone, Copy, Debug, PartialEq, Eq, Structural)]
pub enum Encoding {
    Jpeg,
    Png,
    WebP,
}

/// The encoding in which the image behind a reference is kept, by its
/// extension; `None` for a reference that is not kept at all.
pub open spec fn encoding_of(name: Seq<char>) -> Option<Encoding> {
    if "data:"@.is_prefix_of(name) {
        None
    } else if ".jpg"@.is_suffix_of(name) {
        Some(Encoding::Jpeg)
    } else if ".png"@.is_suffix_of(name) {
        Some(Encoding::Png)
    } else if ".webp"@.is_suffix_of(name) {
        Some(Encoding::WebP)
    } else {
        None
    }
}

/// The extension that files of an encoding carry.
pub open spec fn extension_for(encoding: Encoding) -> Seq<char> {
    match encoding {
        Encoding::Jpeg => "jpg"@,
        Encoding::Png => "png"@,
        Encoding::WebP => "webp"@,
    }
}

/// The extension of a reference: what follows its last dot, or all of it
/// where it has none.
pub open spec fn extension_of(name: Seq<char>) -> Seq<char> {
    after_last(name, '.')
}

/// The local file name of the image that `name` refers to.
pub open spec fn image_name(name: Seq<char>) -> Seq<char> {
    hex_lower(blake3_digest(vstd::utf8::encode_utf8(name))) + "."@ + extension_of(name)
}

/// Where the image called `name` lives below `root`.
pub open spec fn image_path(root: Seq<char>, name: Seq<char>) -> Seq<char> {
    root + "/"@ + name
}

/// Calls `blake3::hash` and copies the 32 bytes of the `Hash` it returns.
/// The digest is a function of the input alone; the contract gives it its
/// name and its length, and says nothing else about it.
#[verifier::external_body]
fn blake3_hash(input: &[u8]) -> (digest: Vec<u8>)
    ensures
        digest@ == blake3_digest(input@),
        digest@.len() == 32,
{
    blake3::hash(input).as_bytes().to_vec()
}

/// Calls `hex::encode`, which writes each byte as two digits taken from
/// `0123456789abcdef`, the high four bits first.
#[verifier::external_body]
fn hex_encode(bytes: &[u8]) -> (text: String)
    ensures
        text@ == hex_lower(bytes@),
{
    hex::encode(bytes)
}

/// Whether the crawler keeps the image that `name` refers to.
pub fn is_supported_file(name: &str) -> (r: bool)
    ensures
        r == supported_reference(name@),
{
    let chars = chars_of(name);
    if starts_with(&chars, "data:") {
        return false;
    }
    if !ends_with(&chars, ".jpg") && !ends_with(&chars, ".png") && !ends_with(&chars, ".webp") {
        return false;
    }
    true
}

/// The encoding in which the image that `name` refers to is kept, if it is
/// kept.
pub fn supported_encoding(name: &str) -> (r: Option<Encoding>)
    ensures
        r == encoding_of(name@),
        r is Some <==> supported_reference(name@),
{
    let chars = chars_of(name);
    if starts_with(&chars, "data:") {
        None
    } else if ends_with(&chars, ".jpg") {
        Some(Encoding::Jpeg)
    } else if ends_with(&chars, ".png") {
        Some(Encoding::Png)
    } else if ends_with(&chars, ".webp") {
        Some(Encoding::WebP)
    } else {
        None
    }
}

/// The local file name for the image that `name` refers to: sixty-four
/// hexadecimal digits, a dot, and the extension.
pub fn rename_img(name: &str) -> (r: String)
    ensures
        r@ == image_name(name@),
        r@.len() == 65 + extension_of(name@).len(),
{
    proof {
        reveal_strlit(".");
    }
    let chars = chars_of(name);
    let start = after_last_start(&chars, '.');
    let ex = name.substring_char(start, chars.len());
    let hash = blake3_hash(name.as_bytes());
    let mut hashed_name = hex_encode(hash.as_slice());
    hashed_name.append(".");
    hashed_name.append(ex);
    hashed_name
}

/// The path of the file called `name` in the directory `root`.
pub fn path_in(root: &str, name: &str) -> (r: String)
    ensures
        r@ == image_path(root@, name@),
{
    let mut path = String::from_str(root);
    path.append("/");
    path.append(name);
    path
}

/// A string that ends in a dot and `ext`, where `ext` holds no dot, has `ext`
/// as what follows its last dot.
pub proof fn lemma_after_last_dot(s: Seq<char>, ext: Seq<char>)
    requires
        (seq!['.'] + ext).is_suffix_of(s),
        !ext.contains('.'),
    ensures
        after_last(s, '.') == ext,
    decreases ext.len(),
{
    let dotted = seq!['.'] + ext;
    let at = s.len() - dotted.len();
    assert(s.subrange(at, s.len() as int) == dotted);
    if ext.len() == 0 {
        assert(s.last() == dotted[0]);
        assert(after_last(s, '.') =~= ext);
    } else {
        assert(s.last() == dotted[dotted.len() - 1]);
        assert(ext.contains(ext.last()) ==> ext.last() != '.');
        assert(ext[ext.len() - 1] == ext.last());
        let front = s.drop_last();
        let shorter = ext.drop_last();
        assert((seq!['.'] + shorter) =~= front.subrange(at, front.len() as int)) by {
            assert forall|i: int| 0 <= i < shorter.len() + 1 implies (seq!['.'] + shorter)[i]
                == front.subrange(at, front.len() as int)[i] by {
                assert(dotted[i] == s.subrange(at, s.len() as int)[i]);
            }
        }
        assert(!shorter.contains('.')) by {
            if shorter.contains('.') {
                let i = choose|i: int| 0 <= i < shorter.len() && shorter[i] == '.';
                assert(ext[i] == '.');
            }
        }
        lemma_after_last_dot(front, shorter);
        assert(last_index_of(s, '.') == last_index_of(front, '.'));
        crate::text::lemma_last_index_of(front, '.');
        assert(after_last(front, '.').len() == shorter.len());
        assert(after_last(s, '.') =~= ext) by {
            assert forall|i: int| 0 <= i < ext.len() implies after_last(s, '.')[i] == ext[i] by {
                if i < shorter.len() {
                    assert(after_last(front, '.')[i] == shorter[i]);
                } else {
                    assert(ext[i] == dotted[i + 1]);
                    assert(dotted[i + 1] == s.subrange(at, s.len() as int)[i + 1]);
                }
            }
        }
    }
}

/// The name under which an image is kept ends in the extension of its
/// encoding: the file says in which encoding it was written.
pub proof fn lemma_name_carries_encoding(name: Seq<char>)
    requires
        supported_reference(name),
    ensures
        encoding_of(name) is Some,
        extension_of(name) == extension_for(encoding_of(name)->0),
        image_name(name) == hex_lower(blake3_digest(vstd::utf8::encode_utf8(name))) + "."@
            + extension_for(encoding_of(name)->0),
{
    reveal_strlit(".jpg");
    reveal_strlit(".png");
    reveal_strlit(".webp");
    reveal_strlit("jpg");
    reveal_strlit("png");
    reveal_strlit("webp");
    let ext = extension_for(encoding_of(name)->0);
    assert(!ext.contains('.'));
    match encoding_of(name)->0 {
        Encoding::Jpeg => {
            assert(seq!['.'] + ext =~= ".jpg"@);
        },
        Encoding::Png => {
            assert(seq!['.'] + ext =~= ".png"@);
        },
        Encoding::WebP => {
            assert(seq!['.'] + ext =~= ".webp"@);
        },
    }
    lemma_after_last_dot(name, ext);
}

} // verus!
