//! What the library makes of git's output, and git argument helpers.
use vstd::prelude::*;

use crate::escape::strings_view;
use crate::text::{str_chars, string_from_chars, trim, trim_spec};

verus! {

/// What `String::from_utf8_lossy` makes of a byte sequence.
pub uninterp spec fn utf8_lossy(bytes: Seq<u8>) -> Seq<char>;

/// Calls `String::from_utf8_lossy`: decodes the bytes, replacing invalid sequences by
/// U+FFFD. Stated: the result is named `utf8_lossy`, and valid UTF-8 decodes exactly.
/// The replacement of invalid sequences is left unsaid.
#[verifier::external_body]
pub(crate) fn lossy_utf8(bytes: &[u8]) -> (s: String)
    ensures
        s@ == utf8_lossy(bytes@),
        vstd::utf8::valid_utf8(bytes@) ==> s@ == vstd::utf8::decode_utf8(bytes@),
{
    String::from_utf8_lossy(bytes).to_string()
}

/// Trimmed standard output of a successful git run; `None` when git failed.
pub fn git_stdout_str(success: bool, stdout: &[u8]) -> (r: Option<String>)
    ensures
        success ==> (r matches Some(s) && s@ == trim_spec(utf8_lossy(stdout@))),
        !success ==> r is None,
{
    if success {
        let s = lossy_utf8(stdout);
        let cs = str_chars(s.as_str());
        let t = trim(cs.as_slice());
        Some(string_from_chars(t.as_slice()))
    } else {
        None
    }
}

/// Porcelain status text (empty when clean).
pub fn git_status_porcelain(stdout: &[u8]) -> (s: String)
    ensures
        s@ == utf8_lossy(stdout@),
{
    lossy_utf8(stdout)
}

/// git-lfs is available when `git lfs version` ran and succeeded.
pub fn git_supports_lfs(status: Option<bool>) -> (b: bool)
    ensures
        b == (status == Some(true)),
{
    match status {
        Some(ok) => ok,
        None => false,
    }
}

/// Append the `protocol.file.allow=always` flag pair to an argument vector.
pub fn push_file_allow_args(args: &mut Vec<String>)
    ensures
        strings_view(final(args)@) == strings_view(old(args)@) + seq!["-c"@, "protocol.file.allow=always"@],
{
    args.push("-c".to_owned());
    args.push("protocol.file.allow=always".to_owned());
    assert(strings_view(args@) =~= strings_view(old(args)@) + seq!["-c"@, "protocol.file.allow=always"@]);
}

} // verus!
