use vstd::prelude::*;

use crate::text::{
    begins_with_dash, contains_resize_modifier, has_resize_modifier, lowercase_equals,
    ascii_lowercase, parse_unsigned, parse_unsigned_at_most, starts_with_dash, str_equal,
};

verus! {

/// The characters of each argument.
pub open spec fn arg_views(args: Seq<String>) -> Seq<Seq<char>> {
    args.map_values(|a: String| a@)
}

/// The position of the first `c` in `s`, if `s` holds one.
pub open spec fn first_index_of(s: Seq<char>, c: char) -> Option<int> {
    if exists|i: int| 0 <= i < s.len() && s[i] == c {
        Some(
            choose|i: int|
                0 <= i < s.len() && s[i] == c && forall|j: int| 0 <= j < i ==> s[j] != c,
        )
    } else {
        None
    }
}

/// Finds the first `c` in `s`.
fn find_char(s: &str, c: char) -> (r: Option<usize>)
    ensures
        match r {
            Some(i) => first_index_of(s@, c) == Some(i as int),
            None => first_index_of(s@, c) is None,
        },
        r matches Some(i) ==> i < s@.len() && s@[i as int] == c,
{
    let len = s.unicode_len();
    let mut i: usize = 0;
    while i < len
        invariant
            i <= len,
            len == s@.len(),
            forall|j: int| 0 <= j < i ==> s@[j] != c,
        decreases len - i,
    {
        if s.get_char(i) == c {
            let ghost k = choose|k: int|
                0 <= k < s@.len() && s@[k] == c && forall|j: int| 0 <= j < k ==> s@[j] != c;
            assert(0 <= i < s@.len() && s@[i as int] == c);
            assert(k == i) by {
                if k < i {
                    assert(s@[k] != c);
                } else if k > i {
                    assert(s@[i as int] != c);
                }
            }
            return Some(i);
        }
        i = i + 1;
    }
    None
}

/// The width and height written as `<W>x<H>`: the text is cut at its first
/// `x`, and each side must parse as a `u32`.
pub open spec fn resize_geometry(s: Seq<char>) -> Option<(u32, u32)> {
    match first_index_of(s, 'x') {
        None => None,
        Some(k) => match (
            parse_unsigned(s.take(k), u32::MAX as nat),
            parse_unsigned(s.skip(k + 1), u32::MAX as nat),
        ) {
            (Some(w), Some(h)) => Some((w as u32, h as u32)),
            _ => None,
        },
    }
}

/// Parses a `WxH` resize argument such as `800x600`.
pub fn parse_resize(value: &str) -> (r: Option<(u32, u32)>)
    ensures
        r == resize_geometry(value@),
{
    match find_char(value, 'x') {
        None => None,
        Some(k) => {
            let len = value.unicode_len();
            let width = value.substring_char(0, k);
            let height = value.substring_char(k + 1, len);
            assert(width@ =~= value@.take(k as int));
            assert(height@ =~= value@.skip(k + 1));
            match (
                parse_unsigned_at_most(width, u32::MAX),
                parse_unsigned_at_most(height, u32::MAX),
            ) {
                (Some(w), Some(h)) => Some((w, h)),
                _ => None,
            }
        },
    }
}

/// Whether a `-resize` value is a plain `WxH` geometry that the native engine
/// handles.
pub fn native_resize_geometry(value: &str) -> (r: bool)
    ensures
        r == resize_geometry(value@) is Some,
{
    parse_resize(value).is_some()
}

/// The quality written by a `-quality` value, as `str::parse::<u8>` reads it.
pub open spec fn quality_value(s: Seq<char>) -> Option<u8> {
    match parse_unsigned(s, 255) {
        Some(q) => Some(q as u8),
        None => None,
    }
}

/// Parses a `-quality` value.
pub fn parse_quality(value: &str) -> (r: Option<u8>)
    ensures
        r == quality_value(value@),
{
    match parse_unsigned_at_most(value, 255) {
        Some(q) => Some(q as u8),
        None => None,
    }
}

/// Whether `s` is one of the flags that the native engine parses itself.
pub open spec fn is_native_flag(s: Seq<char>) -> bool {
    s == "-resize"@ || s == "-quality"@
}

/// Reports whether `s` is `-resize` or `-quality`.
pub fn native_flag(s: &str) -> (r: bool)
    ensures
        r == is_native_flag(s@),
{
    str_equal(s, "-resize") || str_equal(s, "-quality")
}

/// Whether `s` is an option: a `-` followed by at least one character.
pub open spec fn is_option(s: Seq<char>) -> bool {
    s.len() > 1 && s[0] == '-'
}

fn option_like(s: &str) -> (r: bool)
    ensures
        r == is_option(s@),
{
    begins_with_dash(s) && s.unicode_len() > 1
}

/// Whether a file extension names a format of the native engine (AVIF, JPEG,
/// PNG, WebP), in any ASCII case.
pub open spec fn native_extension_name(e: Seq<char>) -> bool {
    let l = ascii_lowercase(e);
    l == "avif"@ || l == "jpeg"@ || l == "jpg"@ || l == "png"@ || l == "webp"@
}

/// Reports whether `ext` names a format of the native engine.
pub fn is_native_extension(ext: &str) -> (r: bool)
    ensures
        r == native_extension_name(ext@),
{
    lowercase_equals(ext, "avif") || lowercase_equals(ext, "jpeg") || lowercase_equals(ext, "jpg")
        || lowercase_equals(ext, "png") || lowercase_equals(ext, "webp")
}

/// What `std::path::Path::extension` gives for a path.
pub uninterp spec fn path_extension(path: Seq<char>) -> Option<Seq<char>>;

/// Calls `std::path::Path::extension` on `path`; its result, as a string, is
/// the named [`path_extension`] of the path. Nothing else is stated of it.
#[verifier::external_body]
fn file_extension(path: &str) -> (r: Option<String>)
    ensures
        match r {
            Some(e) => path_extension(path@) == Some(e@),
            None => path_extension(path@) is None,
        },
{
    match std::path::Path::new(path).extension() {
        Some(e) => match e.to_str() {
            Some(t) => Some(t.to_string()),
            None => None,
        },
        None => None,
    }
}

/// Whether a path ends in an extension of the native engine.
pub open spec fn native_path(path: Seq<char>) -> bool {
    match path_extension(path) {
        Some(e) => native_extension_name(e),
        None => false,
    }
}

/// Reports whether `path` ends in an extension of the native engine.
pub fn has_native_extension(path: &str) -> (r: bool)
    ensures
        r == native_path(path@),
{
    match file_extension(path) {
        Some(e) => is_native_extension(e.as_str()),
        None => false,
    }
}

/// The position of the output path when the arguments from `index` on are
/// native flags with their values followed by exactly one last argument that
/// is not an option.
pub open spec fn output_position_from(args: Seq<Seq<char>>, index: int) -> Option<int>
    decreases args.len() + 1 - index,
{
    if index < 0 || index >= args.len() {
        None
    } else if is_native_flag(args[index]) {
        output_position_from(args, index + 2)
    } else if starts_with_dash(args[index]) || index + 1 != args.len() {
        None
    } else {
        Some(index)
    }
}

/// The input and output paths of a native command line
/// `<program> <input> [<flag> <value>]... <output>`.
pub open spec fn native_io(args: Seq<Seq<char>>) -> Option<(Seq<char>, Seq<char>)> {
    if args.len() < 2 {
        None
    } else {
        match output_position_from(args, 2) {
            Some(k) => Some((args[1], args[k])),
            None => None,
        }
    }
}

/// Finds the input and output paths of a native command line.
pub fn native_input_output(args: &[String]) -> (r: Option<(&str, &str)>)
    ensures
        match native_io(arg_views(args@)) {
            Some((i, o)) => r matches Some((a, b)) && a@ == i && b@ == o,
            None => r is None,
        },
{
    let ghost v = arg_views(args@);
    if args.len() < 2 {
        return None;
    }
    let input = args[1].as_str();
    let mut index: usize = 2;
    while index < args.len()
        invariant
            2 <= index <= args.len(),
            v == arg_views(args@),
            input@ == v[1],
            output_position_from(v, index as int) == output_position_from(v, 2),
        decreases args.len() - index,
    {
        let arg = args[index].as_str();
        assert(arg@ == v[index as int]);
        if native_flag(arg) {
            if index + 1 >= args.len() {
                assert(output_position_from(v, index + 2) is None);
                return None;
            }
            index = index + 2;
        } else if begins_with_dash(arg) || index + 1 != args.len() {
            return None;
        } else {
            return Some((input, arg));
        }
    }
    None
}

/// Whether the option at position `i` sends the command to the fallback: it is
/// not a native flag, its value is standard input `-` or holds a resize
/// modifier, or it is `-resize` without a plain `WxH` value.
pub open spec fn option_needs_fallback(args: Seq<Seq<char>>, i: int) -> bool {
    ||| !is_native_flag(args[i])
    ||| (i + 1 < args.len() && args[i + 1] == "-"@)
    ||| (i + 1 < args.len() && has_resize_modifier(args[i + 1]))
    ||| (args[i] == "-resize"@ && !(i + 1 < args.len() && resize_geometry(args[i + 1]) is Some))
}

/// The scan of the arguments from position `i`: `-` sends the command to the
/// fallback, and each option is checked together with the value after it,
/// which the scan then skips.
pub open spec fn scan_needs_fallback(args: Seq<Seq<char>>, i: int) -> bool
    decreases args.len() + 1 - i,
{
    if i < 0 || i >= args.len() {
        false
    } else if args[i] == "-"@ {
        true
    } else if is_option(args[i]) {
        option_needs_fallback(args, i) || scan_needs_fallback(args, i + 2)
    } else {
        scan_needs_fallback(args, i + 1)
    }
}

/// Whether a native command line names an input or output path without an
/// extension of the native engine.
pub open spec fn extension_needs_fallback(args: Seq<Seq<char>>) -> bool {
    match native_io(args) {
        Some((input, output)) => !native_path(input) || !native_path(output),
        None => false,
    }
}

/// Whether a command line must be handed to ImageMagick.
pub open spec fn fallback_needed(args: Seq<Seq<char>>) -> bool {
    extension_needs_fallback(args) || scan_needs_fallback(args, 0)
}

/// Why a command line is handed to ImageMagick; each position is that of the
/// argument at fault.
#[derive(Debug, Clone, Copy, PartialEq, Eq, Structural)]
pub enum FallbackReason {
    /// The input or output path has no extension of the native engine.
    ForeignExtension,
    /// Standard input `-` at this position.
    StandardInput(usize),
    /// An option other than `-resize` and `-quality` at this position.
    UnknownFlag(usize),
    /// A flag value holding a resize modifier at this position.
    ResizeModifier(usize),
    /// A `-resize` at this position without a plain `WxH` value.
    MalformedGeometry(usize),
}

/// What sends the option at position `i`, with its value, to the fallback.
pub open spec fn option_reason(args: Seq<Seq<char>>, i: int) -> Option<FallbackReason> {
    if !is_native_flag(args[i]) {
        Some(FallbackReason::UnknownFlag(i as usize))
    } else if i + 1 < args.len() && args[i + 1] == "-"@ {
        Some(FallbackReason::StandardInput((i + 1) as usize))
    } else if i + 1 < args.len() && has_resize_modifier(args[i + 1]) {
        Some(FallbackReason::ResizeModifier((i + 1) as usize))
    } else if args[i] == "-resize"@ && !(i + 1 < args.len() && resize_geometry(args[i + 1]) is Some) {
        Some(FallbackReason::MalformedGeometry(i as usize))
    } else {
        None
    }
}

/// The first reason the scan from position `i` finds.
pub open spec fn scan_reason(args: Seq<Seq<char>>, i: int) -> Option<FallbackReason>
    decreases args.len() + 1 - i,
{
    if i < 0 || i >= args.len() {
        None
    } else if args[i] == "-"@ {
        Some(FallbackReason::StandardInput(i as usize))
    } else if is_option(args[i]) {
        match option_reason(args, i) {
            Some(r) => Some(r),
            None => scan_reason(args, i + 2),
        }
    } else {
        scan_reason(args, i + 1)
    }
}

/// Why a command line must be handed to ImageMagick, if it must: the paths'
/// extensions are looked at first, then the arguments from the left.
pub open spec fn fallback_reason_of(args: Seq<Seq<char>>) -> Option<FallbackReason> {
    if extension_needs_fallback(args) {
        Some(FallbackReason::ForeignExtension)
    } else {
        scan_reason(args, 0)
    }
}

proof fn lemma_scan_reason_found(args: Seq<Seq<char>>, i: int)
    ensures
        scan_reason(args, i) is Some <==> scan_needs_fallback(args, i),
    decreases args.len() + 1 - i,
{
    if 0 <= i < args.len() && args[i] != "-"@ {
        if is_option(args[i]) {
            lemma_scan_reason_found(args, i + 2);
        } else {
            lemma_scan_reason_found(args, i + 1);
        }
    }
}

/// There is a reason to hand a command line to ImageMagick exactly when it
/// must be handed over.
pub proof fn lemma_reason_exactly_when_fallback(args: Seq<Seq<char>>)
    ensures
        fallback_reason_of(args) is Some <==> fallback_needed(args),
{
    lemma_scan_reason_found(args, 0);
}

/// Tells why a command line must be handed to ImageMagick, or `None` when the
/// native engine can run it.
pub fn fallback_reason(args: &[String]) -> (r: Option<FallbackReason>)
    ensures
        r == fallback_reason_of(arg_views(args@)),
{
    let ghost v = arg_views(args@);
    if let Some((input, output)) = native_input_output(args) {
        if !has_native_extension(input) || !has_native_extension(output) {
            return Some(FallbackReason::ForeignExtension);
        }
    }
    let mut i: usize = 0;
    while i < args.len()
        invariant
            i <= args.len(),
            v == arg_views(args@),
            !extension_needs_fallback(v),
            scan_reason(v, i as int) == scan_reason(v, 0),
        decreases args.len() - i,
    {
        let arg = args[i].as_str();
        assert(arg@ == v[i as int]);
        if str_equal(arg, "-") {
            return Some(FallbackReason::StandardInput(i));
        }
        if option_like(arg) {
            if !native_flag(arg) {
                return Some(FallbackReason::UnknownFlag(i));
            }
            if i + 1 < args.len() && str_equal(args[i + 1].as_str(), "-") {
                return Some(FallbackReason::StandardInput(i + 1));
            }
            if i + 1 < args.len() && contains_resize_modifier(args[i + 1].as_str()) {
                return Some(FallbackReason::ResizeModifier(i + 1));
            }
            if str_equal(arg, "-resize") && !(i + 1 < args.len() && native_resize_geometry(
                args[i + 1].as_str(),
            )) {
                return Some(FallbackReason::MalformedGeometry(i));
            }
            if i + 1 >= args.len() {
                assert(scan_reason(v, i + 2) is None);
                return None;
            }
            i = i + 2;
        } else {
            i = i + 1;
        }
    }
    None
}

/// Decides, from the raw command-line arguments, whether the native engine can
/// run the command or it must be handed to ImageMagick: standard input (`-`)
/// anywhere, resize modifiers, flags other than `-resize` and `-quality`, a
/// malformed resize geometry, and input or output paths without a native
/// extension all send it to the fallback.
pub fn needs_fallback(args: &[String]) -> (r: bool)
    ensures
        r == fallback_needed(arg_views(args@)),
{
    proof {
        lemma_reason_exactly_when_fallback(arg_views(args@));
    }
    fallback_reason(args).is_some()
}

} // verus!
