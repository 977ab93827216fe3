//! The decryptor: removes CENC-style encryption from a segment with the key
//! of its channel.
//!
//! A channel without a key is served as it comes. For the others the
//! in-process decoder is tried first. Where it fails, the caller runs a
//! subprocess on the same bytes and reports what it wrote; where that gives
//! nothing either, the segment is passed on as it came.

use vstd::prelude::*;

verus! {

/// The id under which the decoder is handed the key of a channel.
pub open spec fn key_id() -> Seq<char> {
    "1"@
}

/// What `mp4decrypt::mp4decrypt` makes of `data` with the one key `key`
/// under the id `key_id`, and without fragment information: the decrypted
/// bytes, or `None` where it reports an error.
pub uninterp spec fn cenc_decrypted(data: Seq<u8>, key_id: Seq<char>, key: Seq<char>) -> Option<
    Seq<u8>,
>;

/// The view of optional bytes.
pub open spec fn opt_bytes(o: Option<Vec<u8>>) -> Option<Seq<u8>> {
    match o {
        Some(b) => Some(b@),
        None => None,
    }
}

/// Calls `mp4decrypt::mp4decrypt` on `data` with a key map of the one entry
/// `key_id` to `key` and no fragment information, and hands back the bytes
/// it returns, or `None` for an error. The call builds C strings of both
/// texts and panics on a NUL character in either, so neither may hold one.
/// Nothing is claimed of the result but that it is the one named
/// `cenc_decrypted`.
#[verifier::external_body]
fn cenc_decrypt(data: &[u8], key_id: &str, key: &str) -> (r: Option<Vec<u8>>)
    requires
        !key_id@.contains('\0'),
        !key@.contains('\0'),
    ensures
        opt_bytes(r) == cenc_decrypted(data@, key_id@, key@),
{
    let keys = std::collections::HashMap::from([(key_id.to_owned(), key.to_owned())]);
    mp4decrypt::mp4decrypt(data, keys, None).ok()
}

/// Where the decryption of a segment stands after the in-process decoder.
#[derive(Debug)]
pub enum DecryptStep {
    /// The bytes to pass on.
    Done(Vec<u8>),
    /// The in-process decoder failed: the subprocess is to be run on these
    /// bytes, which are the ones that came in.
    Fallback(Vec<u8>),
}

/// The view of `DecryptStep`, over which contracts are stated.
pub enum DecryptStepView {
    Done(Seq<u8>),
    Fallback(Seq<u8>),
}

impl View for DecryptStep {
    type V = DecryptStepView;

    open spec fn view(&self) -> DecryptStepView {
        match self {
            DecryptStep::Done(b) => DecryptStepView::Done(b@),
            DecryptStep::Fallback(b) => DecryptStepView::Fallback(b@),
        }
    }
}

/// What follows from the outcome of the in-process decoder: its output where
/// it gave one, the subprocess on the input otherwise.
pub open spec fn after_in_process_spec(data: Seq<u8>, decoded: Option<Seq<u8>>) -> DecryptStepView {
    match decoded {
        Some(out) => DecryptStepView::Done(out),
        None => DecryptStepView::Fallback(data),
    }
}

/// The first step of the decryption of `data` with `key`.
pub open spec fn decrypt_spec(data: Seq<u8>, key: Seq<char>) -> DecryptStepView {
    if key.len() == 0 {
        DecryptStepView::Done(data)
    } else if key.contains('\0') {
        DecryptStepView::Fallback(data)
    } else {
        after_in_process_spec(data, cenc_decrypted(data, key_id(), key))
    }
}

/// What is passed on after the subprocess: what it wrote, or the input
/// where it failed or wrote nothing.
pub open spec fn finish_spec(data: Seq<u8>, output: Option<Seq<u8>>) -> Seq<u8> {
    match output {
        Some(out) => if out.len() > 0 {
            out
        } else {
            data
        },
        None => data,
    }
}

/// A media segment behind its initialization segment, where one is cached.
pub open spec fn with_init_spec(init: Option<Seq<u8>>, media: Seq<u8>) -> Seq<u8> {
    match init {
        Some(i) => i + media,
        None => media,
    }
}

/// Tests whether a text holds a NUL character.
pub fn has_nul(s: &str) -> (r: bool)
    ensures
        r == s@.contains('\0'),
{
    let n = s.unicode_len();
    let mut i: usize = 0;
    while i < n
        invariant
            i <= n,
            n == s@.len(),
            forall|j: int| 0 <= j < i ==> s@[j] != '\0',
        decreases n - i,
    {
        if s.get_char(i) == '\0' {
            return true;
        }
        i = i + 1;
    }
    false
}

/// Puts a media segment behind the cached initialization segment.
pub fn with_init(init: &Option<Vec<u8>>, media: Vec<u8>) -> (r: Vec<u8>)
    ensures
        r@ == with_init_spec(opt_bytes(*init), media@),
{
    match init {
        Some(i) => {
            let mut out = i.clone();
            let mut rest = media;
            out.append(&mut rest);
            out
        },
        None => media,
    }
}

/// Decides what follows from the outcome of the in-process decoder.
pub fn after_in_process(data: Vec<u8>, decoded: Option<Vec<u8>>) -> (r: DecryptStep)
    ensures
        r@ == after_in_process_spec(data@, opt_bytes(decoded)),
{
    match decoded {
        Some(out) => DecryptStep::Done(out),
        None => DecryptStep::Fallback(data),
    }
}

/// Starts the decryption of a segment. With an empty key the bytes are
/// passed on unchanged. Otherwise the in-process decoder runs; where it
/// fails, or cannot take the key, the subprocess is called for.
pub fn decrypt_segment(data: Vec<u8>, key: &str) -> (r: DecryptStep)
    ensures
        r@ == decrypt_spec(data@, key@),
        key@.len() == 0 ==> r@ == DecryptStepView::Done(data@),
{
    if key.unicode_len() == 0 {
        return DecryptStep::Done(data);
    }
    if has_nul(key) {
        return DecryptStep::Fallback(data);
    }
    proof {
        reveal_strlit("1");
        assert(!"1"@.contains('\0'));
    }
    let decoded = cenc_decrypt(data.as_slice(), "1", key);
    after_in_process(data, decoded)
}

/// Ends the decryption of a segment for which the subprocess ran: `output`
/// is what it wrote, or `None` where it failed.
pub fn finish_decrypt(data: Vec<u8>, output: Option<Vec<u8>>) -> (r: Vec<u8>)
    ensures
        r@ == finish_spec(data@, opt_bytes(output)),
{
    match output {
        Some(out) => if out.len() > 0 {
            out
        } else {
            data
        },
        None => data,
    }
}

} // verus!
