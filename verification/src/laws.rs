use vstd::prelude::*;

use crate::cli::{
    extension_needs_fallback, fallback_needed, is_native_flag, is_option, native_io, native_path,
    first_index_of, option_needs_fallback, output_position_from, quality_value, resize_geometry,
    scan_needs_fallback,
};
use crate::formats::avif_path;
use crate::limits::{dimensions_allowed, MAX_INPUT_BYTES};
use crate::pipeline::{fresh_conversion, transition, well_formed, ConversionView, Event, Step};
use crate::error::ErrorView;
use crate::text::{
    starts_with_dash, all_digits, decimal_digits, digit_char, digit_value, digits_value, has_resize_modifier,
    is_digit, parse_unsigned, unsigned_digits,
};
use crate::options::{flag_options_from, native_options};

verus! {

proof fn lemma_native_flags_are_options()
    ensures
        is_option("-resize"@),
        is_option("-quality"@),
        "-resize"@ != "-"@,
        "-quality"@ != "-"@,
        "-resize"@ != "-quality"@,
{
    reveal_strlit("-resize");
    reveal_strlit("-quality");
    reveal_strlit("-");
    assert("-resize"@.len() != "-"@.len());
    assert("-quality"@.len() != "-"@.len());
    assert("-resize"@[1] != "-quality"@[1]);
}

/// The flags that stand between the input and the output path of an admitted
/// command line are all read by the option parser.
proof fn lemma_admitted_flags_parse(
    args: Seq<Seq<char>>,
    j: int,
    resize: Option<(u32, u32)>,
    quality: Option<u8>,
)
    requires
        args.len() >= 3,
        0 <= j,
        output_position_from(args, j + 2) == Some(args.len() - 1),
        !scan_needs_fallback(args, j + 2),
        forall|k: int|
            2 <= k < args.len() - 1 && (k - 2) % 2 == 0 && args[k] == "-quality"@ ==> quality_value(
                #[trigger] args[k + 1],
            ) is Some,
        (j % 2) == 0,
    ensures
        flag_options_from(args.subrange(2, args.len() as int).drop_last(), j, resize, quality) is Ok,
    decreases args.len() - j,
{
    let flags = args.subrange(2, args.len() as int).drop_last();
    lemma_native_flags_are_options();
    if j < flags.len() {
        assert(j + 2 < args.len() - 1);
        assert(is_native_flag(args[j + 2]));
        assert(output_position_from(args, j + 4) == Some(args.len() - 1));
        assert(j + 4 <= args.len() - 1);
        assert(flags[j] == args[j + 2]);
        assert(flags[j + 1] == args[j + 3]);
        assert(is_option(args[j + 2]));
        assert(!option_needs_fallback(args, j + 2));
        assert(!scan_needs_fallback(args, j + 4));
        if args[j + 2] == "-resize"@ {
            let g = resize_geometry(args[j + 3]);
            assert(g is Some);
            lemma_admitted_flags_parse(args, j + 2, g, quality);
        } else {
            assert(args[j + 2] == "-quality"@);
            let q = quality_value(args[j + 3]);
            assert(q is Some);
            lemma_admitted_flags_parse(args, j + 2, resize, q);
        }
    }
}

/// A command line `<program> <input> [<flag> <value>]... <output>` that the
/// fallback gate lets through is read by the native option parser without an
/// error, whenever its `-quality` values are numbers from 0 to 255 and its input
/// path is not itself `-resize` or `-quality`; the output path is then the last
/// argument.
pub proof fn lemma_admitted_commands_parse(args: Seq<Seq<char>>)
    requires
        !fallback_needed(args),
        native_io(args) is Some,
        !is_native_flag(args[1]),
        forall|k: int|
            2 <= k < args.len() - 1 && (k - 2) % 2 == 0 && args[k] == "-quality"@ ==> quality_value(
                #[trigger] args[k + 1],
            ) is Some,
    ensures
        native_options(args.subrange(2, args.len() as int)) is Ok,
        native_options(args.subrange(2, args.len() as int)) matches Ok((output, _, _)) && output
            == args.last(),
{
    lemma_native_flags_are_options();
    let k = output_position_from(args, 2)->0;
    assert(k == args.len() - 1) by {
        lemma_output_position_is_last(args, 2);
    }
    // The scan reaches position 2 whatever the program name and the input are.
    assert(!scan_needs_fallback(args, 0));
    if !is_option(args[0]) {
        assert(!scan_needs_fallback(args, 1));
        assert(args[1] != "-"@) by {
            if args[1] == "-"@ {
                assert(scan_needs_fallback(args, 1));
            }
        }
        if is_option(args[1]) {
            assert(option_needs_fallback(args, 1));
        }
        assert(!scan_needs_fallback(args, 2));
    }
    assert(!scan_needs_fallback(args, 2));
    lemma_admitted_flags_parse(args, 0, None, None);
    let rest = args.subrange(2, args.len() as int);
    assert(rest.len() > 0);
    assert(rest.last() == args.last());
}

/// A position found by [`output_position_from`] is the last argument.
proof fn lemma_output_position_is_last(args: Seq<Seq<char>>, index: int)
    requires
        output_position_from(args, index) is Some,
    ensures
        output_position_from(args, index) == Some(args.len() - 1),
    decreases args.len() + 1 - index,
{
    if 0 <= index < args.len() && is_native_flag(args[index]) {
        lemma_output_position_is_last(args, index + 2);
    }
}

/// Whether the scan of the arguments, started at position `i`, steps on
/// position `k`: from each position it goes to the next one, except that an
/// option takes the argument after it as its value and is skipped together
/// with it.
pub open spec fn scan_steps_on(args: Seq<Seq<char>>, i: int, k: int) -> bool
    decreases k + 1 - i,
{
    if i == k {
        true
    } else if i > k || i < 0 || i >= args.len() {
        false
    } else if is_option(args[i]) {
        scan_steps_on(args, i + 2, k)
    } else {
        scan_steps_on(args, i + 1, k)
    }
}

/// Whether the argument at position `k` is one that the native engine refuses:
/// standard input `-`, an option other than `-resize` and `-quality`, a flag
/// whose value holds a resize modifier (`!`, `>`, `<`, `^`), or `-resize`
/// without a plain `WxH` value.
pub open spec fn refused_argument(args: Seq<Seq<char>>, k: int) -> bool {
    ||| args[k] == "-"@
    ||| (is_option(args[k]) && !is_native_flag(args[k]))
    ||| (is_native_flag(args[k]) && k + 1 < args.len() && has_resize_modifier(args[k + 1]))
    ||| (args[k] == "-resize"@ && !(k + 1 < args.len() && resize_geometry(args[k + 1]) is Some))
}

proof fn lemma_refused_argument_stops_scan(args: Seq<Seq<char>>, i: int, k: int)
    requires
        scan_steps_on(args, i, k),
        0 <= k < args.len(),
        refused_argument(args, k),
    ensures
        scan_needs_fallback(args, i),
    decreases k + 1 - i,
{
    lemma_native_flags_are_options();
    if i == k {
        if args[k] != "-"@ {
            assert(is_option(args[k]));
            assert(option_needs_fallback(args, k));
        }
    } else if is_option(args[i]) {
        lemma_refused_argument_stops_scan(args, i + 2, k);
    } else {
        lemma_refused_argument_stops_scan(args, i + 1, k);
    }
}

/// Standard input (`-`), an unknown flag, a resize modifier in a flag's value
/// and a `-resize` value that is not a plain `WxH` geometry each send the
/// command to ImageMagick, wherever the scan of the arguments steps on them.
pub proof fn lemma_refused_argument_falls_back(args: Seq<Seq<char>>, k: int)
    requires
        0 <= k < args.len(),
        scan_steps_on(args, 0, k),
        refused_argument(args, k),
    ensures
        fallback_needed(args),
{
    lemma_refused_argument_stops_scan(args, 0, k);
}

proof fn lemma_stdin_stops_scan(args: Seq<Seq<char>>, i: int, k: int)
    requires
        0 <= i <= k < args.len(),
        args[k] == "-"@,
    ensures
        scan_needs_fallback(args, i),
    decreases k - i,
{
    if i < k && args[i] != "-"@ {
        if is_option(args[i]) {
            if k > i + 1 {
                lemma_stdin_stops_scan(args, i + 2, k);
            } else {
                assert(option_needs_fallback(args, i));
            }
        } else {
            lemma_stdin_stops_scan(args, i + 1, k);
        }
    }
}

/// Standard input `-` anywhere among the arguments sends the command to
/// ImageMagick.
pub proof fn lemma_stdin_anywhere_falls_back(args: Seq<Seq<char>>, k: int)
    requires
        0 <= k < args.len(),
        args[k] == "-"@,
    ensures
        fallback_needed(args),
{
    lemma_stdin_stops_scan(args, 0, k);
}

/// A native command line whose input or output path lacks an extension of the
/// native engine is sent to ImageMagick.
pub proof fn lemma_foreign_extension_falls_back(args: Seq<Seq<char>>)
    requires
        native_io(args) matches Some((input, output)) && (!native_path(input) || !native_path(
            output,
        )),
    ensures
        fallback_needed(args),
{
    assert(extension_needs_fallback(args));
}

/// No pixel work happens before the limits are checked: every transition keeps
/// a conversion's invariant; dimensions are read only from an input file whose
/// size was accepted; the input is decoded only once that size and the source
/// dimensions were accepted; and an image is only ever resampled to a size
/// under the pixel ceiling. Dimensions are read, and the input decoded, with
/// the AVIF codec exactly when the input path names an AVIF image.
pub proof fn lemma_pixel_work_follows_checks(c: ConversionView, e: Event)
    requires
        well_formed(c),
    ensures
        well_formed(transition(c, e).0),
        transition(c, e).1 matches Ok(Step::ReadDimensions { .. }) ==> (transition(
            c,
            e,
        ).0.input_size matches Some(n) && n <= MAX_INPUT_BYTES),
        transition(c, e).1 matches Ok(Step::Decode { .. }) ==> (transition(
            c,
            e,
        ).0.input_size matches Some(n) && n <= MAX_INPUT_BYTES),
        transition(c, e).1 matches Ok(Step::Decode { .. }) ==> (transition(
            c,
            e,
        ).0.source matches Some((w, h)) && dimensions_allowed(w, h)),
        transition(c, e).1 matches Ok(Step::Resample { width, height }) ==> dimensions_allowed(
            width,
            height,
        ),
        transition(c, e).1 matches Ok(Step::ReadDimensions { avif }) ==> avif == avif_path(c.input),
        transition(c, e).1 matches Ok(Step::Decode { avif }) ==> avif == avif_path(c.input),
{
}

/// The decimal digits of a number are digits and read back as that number.
proof fn lemma_decimal_digits_value(n: nat)
    ensures
        decimal_digits(n).len() > 0,
        all_digits(decimal_digits(n)),
        digits_value(decimal_digits(n)) == n,
    decreases n,
{
    let d = digit_char(n % 10);
    assert(is_digit(d) && digit_value(d) == n % 10);
    if n >= 10 {
        lemma_decimal_digits_value(n / 10);
        let s = decimal_digits(n);
        assert(s.drop_last() =~= decimal_digits(n / 10));
        assert(s.last() == d);
        assert forall|i: int| 0 <= i < s.len() implies #[trigger] is_digit(s[i]) by {
            if i < s.len() - 1 {
                assert(s[i] == decimal_digits(n / 10)[i]);
            }
        }
        assert(digits_value(s) == digits_value(s.drop_last()) * 10 + digit_value(s.last()));
        assert((n / 10) * 10 + n % 10 == n);
    } else {
        let s = decimal_digits(n);
        assert(s.drop_last() =~= Seq::<char>::empty());
        assert(digits_value(s) == digits_value(s.drop_last()) * 10 + digit_value(s.last()));
        assert(digits_value(Seq::<char>::empty()) == 0);
    }
}

/// Writing a number in decimal and parsing it back gives the number.
pub proof fn lemma_parse_decimal_round_trip(n: nat, max: nat)
    requires
        n <= max,
    ensures
        parse_unsigned(decimal_digits(n), max) == Some(n),
{
    lemma_decimal_digits_value(n);
    let s = decimal_digits(n);
    assert(is_digit(s[0]));
    assert(unsigned_digits(s) == s);
}

/// A geometry written as `<W>x<H>` reads back as width `W` and height `H`, in
/// that order, for every pair of `u32`s.
pub proof fn lemma_resize_geometry_reads_width_then_height(w: u32, h: u32)
    ensures
        resize_geometry(decimal_digits(w as nat) + "x"@ + decimal_digits(h as nat)) == Some((w, h)),
{
    reveal_strlit("x");
    let dw = decimal_digits(w as nat);
    let dh = decimal_digits(h as nat);
    let s = dw + "x"@ + dh;
    lemma_decimal_digits_value(w as nat);
    lemma_decimal_digits_value(h as nat);
    let k = dw.len() as int;
    assert(s[k] == 'x');
    assert forall|j: int| 0 <= j < k implies s[j] != 'x' by {
        assert(s[j] == dw[j]);
        assert(is_digit(dw[j]));
    }
    let c = choose|i: int| 0 <= i < s.len() && s[i] == 'x' && forall|j: int| 0 <= j < i ==> s[j] != 'x';
    assert(0 <= k < s.len() && s[k] == 'x' && forall|j: int| 0 <= j < k ==> s[j] != 'x');
    assert(c == k) by {
        if c < k {
            assert(s[c] != 'x');
        } else if c > k {
            assert(s[k] != 'x');
        }
    }
    assert(first_index_of(s, 'x') == Some(k));
    assert(s.take(k) =~= dw);
    assert(s.skip(k + 1) =~= dh);
    lemma_parse_decimal_round_trip(w as nat, u32::MAX as nat);
    lemma_parse_decimal_round_trip(h as nat, u32::MAX as nat);
}

/// A conversion run with a resize box hands the fitting step the recorded
/// source size and the box exactly as the caller asked for it, whatever the
/// orientation of either, and then resamples to exactly the fitted size the
/// caller reports, when that size is under the ceiling. Without a box the
/// decoded image keeps its size.
pub proof fn lemma_requested_box_reaches_fitting(
    input: Seq<char>,
    output: Seq<char>,
    bounds: Option<(u32, u32)>,
    quality: Option<u8>,
    size: u64,
    w: u32,
    h: u32,
    fw: u32,
    fh: u32,
)
    requires
        size <= 50 * 1024 * 1024,
        w * h < 250_000_000,
    ensures
        ({
            let c0 = fresh_conversion(input, output, bounds, quality);
            let c1 = transition(c0, Event::Start);
            let c2 = transition(c1.0, Event::InputSize(size));
            let c3 = transition(c2.0, Event::Dimensions(w, h));
            let c4 = transition(c3.0, Event::Decoded);
            &&& c1.1 == Ok::<Step, ErrorView>(Step::ReadInputSize)
            &&& c2.1 matches Ok(Step::ReadDimensions { .. })
            &&& c3.1 matches Ok(Step::Decode { .. })
            &&& match bounds {
                Some((bw, bh)) => {
                    &&& c4.1 == Ok::<Step, ErrorView>(
                        Step::FitWithin {
                            source_width: w,
                            source_height: h,
                            box_width: bw,
                            box_height: bh,
                        },
                    )
                    &&& (fw * fh < 250_000_000 ==> transition(c4.0, Event::Fitted(fw, fh)).1
                        == Ok::<Step, ErrorView>(Step::Resample { width: fw, height: fh }))
                    &&& (fw * fh >= 250_000_000 ==> transition(c4.0, Event::Fitted(fw, fh)).1
                        == Err::<Step, ErrorView>(ErrorView::DimensionsTooLarge(fw, fh)))
                },
                None => c4.1 == Ok::<Step, ErrorView>(Step::KeepSize),
            }
        }),
{
}

/// With no `name` flag at the flag positions from `i` on, reading the flags
/// leaves the value that `name` sets as it was.
proof fn lemma_absent_flag_keeps_value(
    flags: Seq<Seq<char>>,
    i: int,
    resize: Option<(u32, u32)>,
    quality: Option<u8>,
)
    requires
        0 <= i,
        flag_options_from(flags, i, resize, quality) is Ok,
    ensures
        (forall|j: int| i <= j < flags.len() && (j - i) % 2 == 0 ==> flags[j] != "-resize"@) ==> (
        flag_options_from(flags, i, resize, quality) matches Ok((r, _)) && r == resize),
        (forall|j: int| i <= j < flags.len() && (j - i) % 2 == 0 ==> flags[j] != "-quality"@) ==> (
        flag_options_from(flags, i, resize, quality) matches Ok((_, q)) && q == quality),
    decreases flags.len() - i,
{
    if i < flags.len() {
        lemma_native_flags_are_options();
        if flags[i] == "-resize"@ {
            let g = resize_geometry(flags[i + 1]);
            lemma_absent_flag_keeps_value(flags, i + 2, g, quality);
        } else {
            let q = quality_value(flags[i + 1]);
            lemma_absent_flag_keeps_value(flags, i + 2, resize, q);
        }
    }
}

/// The last `-resize` at a flag position gives the resize read, and the last
/// `-quality` the quality read.
proof fn lemma_last_flag_wins(
    flags: Seq<Seq<char>>,
    i: int,
    resize: Option<(u32, u32)>,
    quality: Option<u8>,
    k: int,
)
    requires
        0 <= i <= k < flags.len(),
        (k - i) % 2 == 0,
        flag_options_from(flags, i, resize, quality) is Ok,
    ensures
        flags[k] == "-resize"@ && (forall|j: int|
            k < j < flags.len() && (j - k) % 2 == 0 ==> flags[j] != "-resize"@) ==> (k + 1
            < flags.len() && resize_geometry(flags[k + 1]) is Some && (flag_options_from(
            flags,
            i,
            resize,
            quality,
        ) matches Ok((r, _)) && r == resize_geometry(flags[k + 1]))),
        flags[k] == "-quality"@ && (forall|j: int|
            k < j < flags.len() && (j - k) % 2 == 0 ==> flags[j] != "-quality"@) ==> (k + 1
            < flags.len() && quality_value(flags[k + 1]) is Some && (flag_options_from(
            flags,
            i,
            resize,
            quality,
        ) matches Ok((_, q)) && q == quality_value(flags[k + 1]))),
    decreases k - i,
{
    lemma_native_flags_are_options();
    if i == k {
        if flags[k] == "-resize"@ {
            let g = resize_geometry(flags[k + 1]);
            lemma_absent_flag_keeps_value(flags, k + 2, g, quality);
        } else if flags[k] == "-quality"@ {
            let q = quality_value(flags[k + 1]);
            lemma_absent_flag_keeps_value(flags, k + 2, resize, q);
        }
    } else {
        if flags[i] == "-resize"@ {
            lemma_last_flag_wins(flags, i + 2, resize_geometry(flags[i + 1]), quality, k);
        } else {
            lemma_last_flag_wins(flags, i + 2, resize, quality_value(flags[i + 1]), k);
        }
    }
}

/// The flags of a native command line may come in any order: when the options
/// are read, the resize is the geometry written after the last `-resize` and
/// the quality the number written after the last `-quality`, whatever flags
/// stand before or between them; a flag that is absent gives no value.
pub proof fn lemma_last_flag_of_each_kind_wins(rest: Seq<Seq<char>>)
    requires
        native_options(rest) is Ok,
    ensures
        ({
            let flags = rest.drop_last();
            native_options(rest) matches Ok((_, resize, quality)) && {
                &&& forall|k: int|
                    0 <= k < flags.len() && k % 2 == 0 && flags[k] == "-resize"@ && (forall|j: int|
                        k < j < flags.len() && j % 2 == 0 ==> flags[j] != "-resize"@) ==> resize
                        == resize_geometry(#[trigger] flags[k + 1]) && resize is Some
                &&& forall|k: int|
                    0 <= k < flags.len() && k % 2 == 0 && flags[k] == "-quality"@ && (forall|j: int|
                        k < j < flags.len() && j % 2 == 0 ==> flags[j] != "-quality"@) ==> quality
                        == quality_value(#[trigger] flags[k + 1]) && quality is Some
                &&& (forall|j: int| 0 <= j < flags.len() && j % 2 == 0 ==> flags[j] != "-resize"@)
                    ==> resize is None
                &&& (forall|j: int| 0 <= j < flags.len() && j % 2 == 0 ==> flags[j] != "-quality"@)
                    ==> quality is None
            }
        }),
{
    let flags = rest.drop_last();
    assert(flag_options_from(flags, 0, None, None) is Ok);
    lemma_absent_flag_keeps_value(flags, 0, None, None);
    assert forall|k: int|
        0 <= k < flags.len() && k % 2 == 0 && flags[k] == "-resize"@ && (forall|j: int|
            k < j < flags.len() && j % 2 == 0 ==> flags[j] != "-resize"@) implies
        flag_options_from(flags, 0, None, None) matches Ok((r, _)) && r == resize_geometry(
        #[trigger] flags[k + 1]) && r is Some by {
        lemma_last_flag_wins(flags, 0, None, None, k);
        assert forall|j: int| k < j < flags.len() && (j - k) % 2 == 0 implies flags[j]
            != "-resize"@ by {
            assert(j % 2 == 0);
        }
    }
    assert forall|k: int|
        0 <= k < flags.len() && k % 2 == 0 && flags[k] == "-quality"@ && (forall|j: int|
            k < j < flags.len() && j % 2 == 0 ==> flags[j] != "-quality"@) implies
        flag_options_from(flags, 0, None, None) matches Ok((_, q)) && q == quality_value(
        #[trigger] flags[k + 1]) && q is Some by {
        lemma_last_flag_wins(flags, 0, None, None, k);
        assert forall|j: int| k < j < flags.len() && (j - k) % 2 == 0 implies flags[j]
            != "-quality"@ by {
            assert(j % 2 == 0);
        }
    }
}

/// The shape `<program> <input> [<flag> <value>]... <output>` with only
/// `-resize` and `-quality` as flags, none of the paths an option, every value
/// free of `-` and of resize modifiers, and every `-resize` value a plain
/// `WxH` geometry.
pub open spec fn plain_native_command(args: Seq<Seq<char>>) -> bool {
    &&& args.len() >= 3
    &&& (args.len() - 3) % 2 == 0
    &&& !starts_with_dash(args[0])
    &&& !starts_with_dash(args[1])
    &&& !starts_with_dash(args.last())
    &&& forall|k: int|
        2 <= k < args.len() - 1 && k % 2 == 0 ==> {
            &&& (#[trigger] args[k] == "-resize"@ || args[k] == "-quality"@)
            &&& args[k + 1] != "-"@
            &&& !has_resize_modifier(args[k + 1])
            &&& (args[k] == "-resize"@ ==> resize_geometry(args[k + 1]) is Some)
        }
}

proof fn lemma_dash_start_of_native_flags()
    ensures
        starts_with_dash("-resize"@),
        starts_with_dash("-quality"@),
        starts_with_dash("-"@),
{
    reveal_strlit("-resize");
    reveal_strlit("-quality");
    reveal_strlit("-");
}

proof fn lemma_plain_output_position(args: Seq<Seq<char>>, j: int)
    requires
        plain_native_command(args),
        2 <= j <= args.len() - 1,
        j % 2 == 0,
    ensures
        output_position_from(args, j) == Some(args.len() - 1),
    decreases args.len() - j,
{
    lemma_dash_start_of_native_flags();
    if j < args.len() - 1 {
        assert(args[j] == "-resize"@ || args[j] == "-quality"@);
        lemma_plain_output_position(args, j + 2);
    } else {
        assert(args[j] == args.last());
    }
}

proof fn lemma_accepted_option(args: Seq<Seq<char>>, j: int)
    requires
        0 <= j,
        j + 1 < args.len(),
        args[j] == "-resize"@ || args[j] == "-quality"@,
        args[j + 1] != "-"@,
        !has_resize_modifier(args[j + 1]),
        args[j] == "-resize"@ ==> resize_geometry(args[j + 1]) is Some,
    ensures
        args[j] != "-"@,
        is_option(args[j]),
        !option_needs_fallback(args, j),
{
    lemma_native_flags_are_options();
}

#[verifier::rlimit(30)]
proof fn lemma_plain_scan(args: Seq<Seq<char>>, j: int)
    requires
        plain_native_command(args),
        2 <= j <= args.len() - 1,
        j % 2 == 0,
    ensures
        !scan_needs_fallback(args, j),
    decreases args.len() - j,
{
    lemma_dash_start_of_native_flags();
    if j < args.len() - 1 {
        assert(args[j] == "-resize"@ || args[j] == "-quality"@);
        lemma_accepted_option(args, j);
        lemma_plain_scan(args, j + 2);
    } else {
        assert(args[j] == args.last());
        assert(!scan_needs_fallback(args, j + 1));
    }
}

/// A plain native command line whose input and output paths both have an
/// extension of the native engine stays native: the fallback is needed only
/// where the laws above say so.
#[verifier::rlimit(30)]
pub proof fn lemma_plain_native_command_stays_native(args: Seq<Seq<char>>)
    requires
        plain_native_command(args),
        native_path(args[1]),
        native_path(args.last()),
    ensures
        !fallback_needed(args),
{
    lemma_dash_start_of_native_flags();
    lemma_plain_output_position(args, 2);
    assert(native_io(args) == Some((args[1], args.last())));
    assert(!extension_needs_fallback(args));
    lemma_plain_scan(args, 2);
    assert(!scan_needs_fallback(args, 1));
    assert(!scan_needs_fallback(args, 0));
}

} // verus!
