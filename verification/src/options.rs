use vstd::prelude::*;

use crate::cli::{arg_views, parse_quality, parse_resize, quality_value, resize_geometry};
use crate::error::{ErrorView, SpheneError};
use crate::text::{append_str, str_equal};

verus! {

/// The options of a native command line once its input path is taken off:
/// the output path and the optional resize box and quality.
#[derive(Debug)]
pub struct NativeOptions {
    pub output: String,
    pub resize: Option<(u32, u32)>,
    pub quality: Option<u8>,
}

/// Reads `-resize` and `-quality` flags, each followed by its value, from
/// position `i` of `flags` on; a later flag overrides an earlier one of the same
/// name.
pub open spec fn flag_options_from(
    flags: Seq<Seq<char>>,
    i: int,
    resize: Option<(u32, u32)>,
    quality: Option<u8>,
) -> Result<(Option<(u32, u32)>, Option<u8>), ErrorView>
    decreases flags.len() + 1 - i,
{
    if i < 0 || i >= flags.len() {
        Ok((resize, quality))
    } else if flags[i] == "-resize"@ {
        if i + 1 >= flags.len() {
            Err(ErrorView::UnsupportedFormat("-resize requires a value"@))
        } else {
            match resize_geometry(flags[i + 1]) {
                Some(g) => flag_options_from(flags, i + 2, Some(g), quality),
                None => Err(ErrorView::UnsupportedFormat("invalid -resize value: "@ + flags[i + 1])),
            }
        }
    } else if flags[i] == "-quality"@ {
        if i + 1 >= flags.len() {
            Err(ErrorView::UnsupportedFormat("-quality requires a value"@))
        } else {
            match quality_value(flags[i + 1]) {
                Some(q) => flag_options_from(flags, i + 2, resize, Some(q)),
                None => Err(ErrorView::UnsupportedFormat("invalid -quality value: "@ + flags[i + 1])),
            }
        }
    } else {
        Err(ErrorView::UnsupportedFormat("unexpected argument: "@ + flags[i]))
    }
}

/// The options of a native command line: the last argument is the output path
/// and the ones before it are flags with their values.
pub open spec fn native_options(rest: Seq<Seq<char>>) -> Result<
    (Seq<char>, Option<(u32, u32)>, Option<u8>),
    ErrorView,
> {
    if rest.len() == 0 {
        Err(ErrorView::UnsupportedFormat("missing output path"@))
    } else {
        match flag_options_from(rest.drop_last(), 0, None, None) {
            Ok((resize, quality)) => Ok((rest.last(), resize, quality)),
            Err(e) => Err(e),
        }
    }
}

fn unsupported(prefix: &str, tail: &str) -> (e: SpheneError)
    ensures
        e@ == ErrorView::UnsupportedFormat(prefix@ + tail@),
{
    let mut message = String::from_str(prefix);
    append_str(&mut message, tail);
    SpheneError::UnsupportedFormat(message)
}

/// Parses the arguments that follow the input path of a native command line:
/// `[-resize <W>x<H>] [-quality <N>] <output>`, flags in any order.
pub fn parse_native_options(rest: &[String]) -> (r: Result<NativeOptions, SpheneError>)
    ensures
        match native_options(arg_views(rest@)) {
            Ok((output, resize, quality)) => r matches Ok(o) && o.output@ == output
                && o.resize == resize && o.quality == quality,
            Err(e) => r matches Err(err) && err@ == e,
        },
{
    let ghost v = arg_views(rest@);
    if rest.len() == 0 {
        return Err(SpheneError::UnsupportedFormat(String::from_str("missing output path")));
    }
    let ghost flags = v.drop_last();
    let count = rest.len() - 1;
    let mut resize: Option<(u32, u32)> = None;
    let mut quality: Option<u8> = None;
    let mut i: usize = 0;
    while i < count
        invariant
            i <= count,
            count == rest.len() - 1,
            v == arg_views(rest@),
            flags == v.drop_last(),
            flag_options_from(flags, i as int, resize, quality) == flag_options_from(
                flags,
                0,
                None,
                None,
            ),
        decreases count - i,
    {
        let arg = rest[i].as_str();
        assert(arg@ == flags[i as int]);
        if str_equal(arg, "-resize") {
            if i + 1 >= count {
                return Err(SpheneError::UnsupportedFormat(String::from_str("-resize requires a value")));
            }
            let value = rest[i + 1].as_str();
            assert(value@ == flags[i + 1]);
            match parse_resize(value) {
                Some(g) => {
                    resize = Some(g);
                },
                None => {
                    return Err(unsupported("invalid -resize value: ", value));
                },
            }
            i = i + 2;
        } else if str_equal(arg, "-quality") {
            if i + 1 >= count {
                return Err(SpheneError::UnsupportedFormat(String::from_str("-quality requires a value")));
            }
            let value = rest[i + 1].as_str();
            assert(value@ == flags[i + 1]);
            match parse_quality(value) {
                Some(q) => {
                    quality = Some(q);
                },
                None => {
                    return Err(unsupported("invalid -quality value: ", value));
                },
            }
            i = i + 2;
        } else {
            return Err(unsupported("unexpected argument: ", arg));
        }
    }
    let output = rest[count].clone();
    assert(output@ == v.last());
    Ok(NativeOptions { output, resize, quality })
}

} // verus!
