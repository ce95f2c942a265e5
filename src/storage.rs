//! Turning the `file://` URLs of the interface into file-system paths.
use vstd::prelude::*;
use vstd::string::StringSliceAdditionalSpecFns;
use vstd::utf8::{encode_utf8, is_char_boundary};

verus! {

/// The bytes of `file://`.
pub open spec fn file_scheme() -> Seq<u8> {
    seq![102u8, 105u8, 108u8, 101u8, 58u8, 47u8, 47u8]
}

/// `b` with the first `n` bytes dropped when they are `prefix` and end on a
/// character boundary.
pub open spec fn strip_prefix_bytes(b: Seq<u8>, prefix: Seq<u8>) -> Seq<u8> {
    let n = prefix.len() as int;
    if b.len() >= n && b.subrange(0, n) == prefix && is_char_boundary(b, n) {
        b.subrange(n, b.len() as int)
    } else {
        b
    }
}

/// The path of a URL: a leading `file://` removed and, for Windows paths,
/// the `/` in front of the drive letter too.
pub open spec fn cleaned_path(b: Seq<u8>, windows: bool) -> Seq<u8> {
    let p = strip_prefix_bytes(b, file_scheme());
    if windows { strip_prefix_bytes(p, seq![47u8]) } else { p }
}

pub(crate) fn strip_leading<'a>(path: &'a str, prefix: &[u8]) -> (r: &'a str)
    ensures
        r.spec_bytes() == strip_prefix_bytes(path.spec_bytes(), prefix@),
{
    let b = path.as_bytes();
    let n = prefix.len();
    if b.len() < n {
        return path;
    }
    let mut i: usize = 0;
    while i < n
        invariant
            i <= n,
            n == prefix@.len(),
            n <= b@.len(),
            b@ == path.spec_bytes(),
            forall|k: int| 0 <= k < i ==> b@[k] == prefix@[k],
        decreases n - i,
    {
        if b[i] != prefix[i] {
            assert(b@.subrange(0, n as int)[i as int] != prefix@[i as int]);
            return path;
        }
        i = i + 1;
    }
    assert(b@.subrange(0, n as int) =~= prefix@);
    if !path.is_char_boundary(n) {
        return path;
    }
    let (_, rest) = path.split_at(n);
    rest
}

/// `path` without a leading `file://`.
pub fn clean_url_path(path: &str) -> (r: String)
    ensures
        encode_utf8(r@) == cleaned_path(path.spec_bytes(), false),
{
    clean_url_path_for(path, false)
}

/// `path` without a leading `file://` and, when `windows`, without the `/`
/// that precedes a drive letter.
pub fn clean_url_path_for(path: &str, windows: bool) -> (r: String)
    ensures
        encode_utf8(r@) == cleaned_path(path.spec_bytes(), windows),
{
    let scheme: [u8; 7] = [102u8, 105u8, 108u8, 101u8, 58u8, 47u8, 47u8];
    assert(scheme@ =~= file_scheme());
    let p = strip_leading(path, scheme.as_slice());
    let q = if windows {
        let slash: [u8; 1] = [47u8];
        assert(slash@ =~= seq![47u8]);
        strip_leading(p, slash.as_slice())
    } else {
        p
    };
    q.to_owned()
}

} // verus!
