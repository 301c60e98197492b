//! What all native libraries have in common: texts without NUL, names of properties, and the
//! values of their interfaces.

use vstd::prelude::*;

use crate::error::{Error, ErrorView};
use crate::text;

verus! {

/// A property and its value, both as texts.
#[derive(Debug, Clone, PartialEq)]
pub struct Prop {
    pub key: String,
    pub value: String,
}

/// A text holds a NUL.
pub open spec fn has_nul(s: Seq<char>) -> bool {
    s.contains('\0')
}

/// Whether a text holds a NUL.
pub fn contains_nul(s: &str) -> (r: bool)
    ensures
        r == has_nul(s@),
{
    let chars = text::chars_of(s);
    let mut i: usize = 0;
    while i < chars.len()
        invariant
            i <= chars@.len(),
            chars@ == s@,
            forall|k: int| 0 <= k < i ==> chars@[k] != '\0',
        decreases chars@.len() - i,
    {
        if chars[i] == '\0' {
            assert(s@[i as int] == '\0');
            return true;
        }
        i = i + 1;
    }
    false
}

/// A text that can be handed to a native library.
pub fn to_cstring(value: &str) -> (r: Result<String, Error>)
    ensures
        match r {
            Ok(t) => !has_nul(value@) && t@ == value@,
            Err(e) => has_nul(value@) && e@ == ErrorView::NulByte(value@),
        },
{
    if contains_nul(value) {
        Err(Error::NulByte(value.to_string()))
    } else {
        Ok(value.to_string())
    }
}

/// A text with hyphens in place of underscores.
pub open spec fn hyphened(s: Seq<char>) -> Seq<char> {
    Seq::new(
        s.len(),
        |i: int|
            if s[i] == '_' {
                '-'
            } else {
                s[i]
            },
    )
}

/// The name of a property as the native libraries know it: two hyphens in front, hyphens in place
/// of underscores; nothing for a blank name.
pub open spec fn prop_name(name: Seq<char>) -> Seq<char> {
    let n = text::trimmed(name);
    if n.len() == 0 {
        Seq::empty()
    } else if text::has_prefix(n, "--"@) {
        hyphened(n)
    } else if text::has_prefix(n, "-"@) {
        hyphened("-"@ + n)
    } else {
        hyphened("--"@ + n)
    }
}

fn hyphenate(s: &str) -> (r: String)
    ensures
        r@ == hyphened(s@),
{
    let chars = text::chars_of(s);
    let mut out = String::new();
    let mut i: usize = 0;
    assert(out@ =~= hyphened(chars@).subrange(0, 0));
    while i < chars.len()
        invariant
            i <= chars@.len(),
            out@ == hyphened(chars@).subrange(0, i as int),
        decreases chars@.len() - i,
    {
        out.push(
            if chars[i] == '_' {
                '-'
            } else {
                chars[i]
            },
        );
        i = i + 1;
        assert(out@ =~= hyphened(chars@).subrange(0, i as int));
    }
    assert(hyphened(chars@).subrange(0, chars@.len() as int) =~= hyphened(s@));
    out
}

/// Writes the name of a property as the native libraries know it.
pub fn normalize_prop_name(name: &str) -> (r: String)
    ensures
        r@ == prop_name(name@),
{
    let n = text::trim(name);
    if n.as_str().unicode_len() == 0 {
        let r = String::new();
        assert(r@ =~= prop_name(name@));
        return r;
    }
    let full = if text::starts_with(n.as_str(), "--") {
        n
    } else if text::starts_with(n.as_str(), "-") {
        text::cat2("-", n.as_str())
    } else {
        text::cat2("--", n.as_str())
    };
    hyphenate(full.as_str())
}

/// A normalized name begins with two hyphens, or is empty, holds no underscore, and stays as it
/// is when it is normalized again.
pub proof fn law_prop_name_is_stable(name: Seq<char>)
    ensures
        ({
            let n = prop_name(name);
            &&& n.len() == 0 || text::has_prefix(n, "--"@)
            &&& !n.contains('_')
            &&& prop_name(n) == n
        }),
{
    reveal_strlit("--");
    reveal_strlit("-");
    let t = text::trimmed(name);
    let n = prop_name(name);
    text::lemma_trimmed_ends(name);
    if t.len() > 0 {
        let full = if text::has_prefix(t, "--"@) {
            t
        } else if text::has_prefix(t, "-"@) {
            "-"@ + t
        } else {
            "--"@ + t
        };
        assert(n == hyphened(full));
        assert(full[0] == '-' && full[1] == '-') by {
            if text::has_prefix(t, "--"@) {
                assert(t.subrange(0, 2)[0] == '-' && t.subrange(0, 2)[1] == '-');
            } else if text::has_prefix(t, "-"@) {
                assert(t.subrange(0, 1)[0] == '-');
            }
        }
        assert(n.subrange(0, 2) =~= "--"@);
        assert(full.last() == t.last());
        text::lemma_trimmed_same(n);
        assert(hyphened(n) =~= n);
        if n.contains('_') {
            let i = choose|i: int| 0 <= i < n.len() && n[i] == '_';
            assert(n[i] != '_');
        }
    } else {
        assert(text::trimmed(n) =~= n);
        assert(prop_name(n) =~= n);
    }
}

/// A name that is normalized already.
pub proof fn lemma_plain_name(n: Seq<char>)
    requires
        n.len() >= 3,
        n[0] == '-',
        n[1] == '-',
        !text::white_space(n.last()),
        forall|i: int| 0 <= i < n.len() ==> n[i] != '_',
    ensures
        prop_name(n) == n,
{
    reveal_strlit("--");
    text::lemma_trimmed_same(n);
    assert(n.subrange(0, 2) =~= "--"@);
    assert(hyphened(n) =~= n);
}

/// The parameters of the language runtime; the library sees their address alone.
#[allow(non_camel_case_types)]
#[derive(Debug, Clone, Copy, PartialEq, Eq, Structural)]
pub struct libia_params {
    pub address: usize,
}

/// The language runtime; the library sees its address alone.
#[allow(non_camel_case_types)]
#[derive(Debug, Clone, Copy, PartialEq, Eq, Structural)]
pub struct libia_runtime {
    pub address: usize,
}

/// The speech runtime; the library sees its address alone.
#[allow(non_camel_case_types)]
#[derive(Debug, Clone, Copy, PartialEq, Eq, Structural)]
pub struct libia_sst {
    pub address: usize,
}

/// The image runtime; the library sees its address alone.
#[allow(non_camel_case_types)]
#[derive(Debug, Clone, Copy, PartialEq, Eq, Structural)]
pub struct libia_image {
    pub address: usize,
}

/// What an option of the language runtime takes.
#[allow(non_camel_case_types)]
#[derive(Debug, Clone, Copy, PartialEq, Eq, Structural)]
pub enum libia_option_kind {
    LIBIA_OPTION_KIND_VOID,
    LIBIA_OPTION_KIND_BOOL,
    LIBIA_OPTION_KIND_INT,
    LIBIA_OPTION_KIND_STRING,
    LIBIA_OPTION_KIND_STRING_PAIR,
}

/// What a piece of generated text is.
#[allow(non_camel_case_types)]
#[derive(Debug, Clone, Copy, PartialEq, Eq, Structural)]
pub enum libia_generation_kind {
    LIBIA_GENERATION_KIND_CONTENT,
    LIBIA_GENERATION_KIND_REASONING,
    LIBIA_GENERATION_KIND_TOOL_CALL,
}

/// What a piece of recognized speech is.
#[allow(non_camel_case_types)]
#[derive(Debug, Clone, Copy, PartialEq, Eq, Structural)]
pub enum libia_sst_generation_kind {
    LIBIA_SST_GENERATION_KIND_TEXT,
    LIBIA_SST_GENERATION_KIND_SPEECH_START,
    LIBIA_SST_GENERATION_KIND_SPEECH_END,
}

/// How an image is sampled.
#[allow(non_camel_case_types)]
#[derive(Debug, Clone, Copy, PartialEq, Eq, Structural)]
pub enum libia_image_sample_method {
    LIBIA_IMAGE_SAMPLE_EULER,
    LIBIA_IMAGE_SAMPLE_EULER_A,
    LIBIA_IMAGE_SAMPLE_HEUN,
    LIBIA_IMAGE_SAMPLE_DPM2,
    LIBIA_IMAGE_SAMPLE_DPMPP2S_A,
    LIBIA_IMAGE_SAMPLE_DPMPP2M,
    LIBIA_IMAGE_SAMPLE_LCM,
}

/// How the steps of an image are spaced.
#[allow(non_camel_case_types)]
#[derive(Debug, Clone, Copy, PartialEq, Eq, Structural)]
pub enum libia_image_scheduler {
    LIBIA_IMAGE_SCHEDULER_DISCRETE,
    LIBIA_IMAGE_SCHEDULER_KARRAS,
    LIBIA_IMAGE_SCHEDULER_EXPONENTIAL,
    LIBIA_IMAGE_SCHEDULER_SIMPLE,
}

/// The words for a refusal: those of the library, or else the library's own.
pub open spec fn refusal(native: Option<Seq<char>>, default: Seq<char>) -> ErrorView {
    ErrorView::Api(
        match native {
            Some(m) => m,
            None => default,
        },
    )
}

/// What came of a native call: success, or the refusal in the library's words or else the given
/// ones.
pub fn native_outcome(ok: bool, native: Option<String>, default: &str) -> (r: Result<(), Error>)
    ensures
        match r {
            Ok(_) => ok,
            Err(e) => !ok && e@ == refusal(text::opt_view(native), default@),
        },
{
    if ok {
        Ok(())
    } else {
        Err(
            Error::Api(
                match native {
                    Some(m) => m,
                    None => default.to_string(),
                },
            ),
        )
    }
}

} // verus!
