//! The command line: `--input`, `--output`, `--seek` and `--duration`, each followed
//! by its value, in any order.

use vstd::prelude::*;
use crate::text::{chars_of, same_text};

verus! {

/// How an argument reads as a floating-point number of seconds.
#[derive(Clone, Copy, Debug, PartialEq, Eq, Structural)]
pub enum NumberClass {
    /// Not a floating-point number at all.
    Unparsable,
    /// A number below zero.
    Negative,
    /// Zero (of either sign).
    Zero,
    /// A number above zero, or NaN (which is neither below nor equal to zero).
    Other,
}

/// One command-line argument with the way it reads as a number.
pub struct CliArg {
    /// The argument's text.
    pub text: String,
    /// How the text reads as a floating-point number.
    pub number: NumberClass,
}

impl View for CliArg {
    type V = (Seq<char>, NumberClass);

    open spec fn view(&self) -> (Seq<char>, NumberClass) {
        (self.text@, self.number)
    }
}

/// An option that takes a value.
#[derive(Clone, Copy, Debug, PartialEq, Eq, Structural)]
pub enum Flag {
    /// `--input <path>`
    Input,
    /// `--output <path>`
    Output,
    /// `--seek <seconds>`
    Seek,
    /// `--duration <seconds>`
    Duration,
}

/// Why a command line is refused.
#[derive(Clone, Copy, Debug, PartialEq, Eq, Structural)]
pub enum CliError {
    /// Fewer than two arguments after the program name.
    TooFewArguments,
    /// The flag is the last argument, with no value after it.
    MissingValue(Flag),
    /// The value of `--seek` or `--duration` is not a number.
    InvalidNumber(Flag),
    /// The value of `--seek` is below zero.
    NegativeSeek,
    /// The value of `--duration` is zero or below.
    NonPositiveDuration,
    /// The argument at this position is no known flag.
    UnknownArgument(usize),
    /// `--input` or `--output` is missing or empty.
    MissingPaths,
    /// The input or output path begins with `-`, and would be read as a flag.
    HyphenPath,
}

/// The settings that a command line gives.
pub struct CliOptions {
    /// The video to read.
    pub input_path: String,
    /// The file to write.
    pub output_path: String,
    /// The text of the seek offset in seconds, if one was given.
    pub seek: Option<String>,
    /// The text of the duration cap in seconds, if one was given.
    pub duration: Option<String>,
}

/// The characters of the settings that a command line gives.
pub struct CliOptionsView {
    pub input_path: Seq<char>,
    pub output_path: Seq<char>,
    pub seek: Option<Seq<char>>,
    pub duration: Option<Seq<char>>,
}

/// The characters of an optional string.
pub open spec fn optional_text(s: Option<String>) -> Option<Seq<char>> {
    match s {
        Some(t) => Some(t@),
        None => None,
    }
}

impl View for CliOptions {
    type V = CliOptionsView;

    open spec fn view(&self) -> CliOptionsView {
        CliOptionsView {
            input_path: self.input_path@,
            output_path: self.output_path@,
            seek: optional_text(self.seek),
            duration: optional_text(self.duration),
        }
    }
}

/// The settings before any argument is read: empty paths, no seek, no duration cap.
pub open spec fn no_options() -> CliOptionsView {
    CliOptionsView {
        input_path: Seq::empty(),
        output_path: Seq::empty(),
        seek: None,
        duration: None,
    }
}

/// The settings after reading the arguments from position `i` on, starting from
/// `st`; a later flag overrides an earlier one.
pub open spec fn scan_args(args: Seq<(Seq<char>, NumberClass)>, i: nat, st: CliOptionsView) -> Result<CliOptionsView, CliError>
    decreases args.len() - i,
{
    if i >= args.len() {
        Ok(st)
    } else {
        let flag = args[i as int].0;
        let has_value = i + 1 < args.len();
        let value = args[i + 1 as int].0;
        let class = args[i + 1 as int].1;
        if flag == "--input"@ {
            if has_value {
                scan_args(args, i + 2, CliOptionsView { input_path: value, ..st })
            } else {
                Err(CliError::MissingValue(Flag::Input))
            }
        } else if flag == "--output"@ {
            if has_value {
                scan_args(args, i + 2, CliOptionsView { output_path: value, ..st })
            } else {
                Err(CliError::MissingValue(Flag::Output))
            }
        } else if flag == "--seek"@ {
            if !has_value {
                Err(CliError::MissingValue(Flag::Seek))
            } else if class == NumberClass::Unparsable {
                Err(CliError::InvalidNumber(Flag::Seek))
            } else if class == NumberClass::Negative {
                Err(CliError::NegativeSeek)
            } else {
                scan_args(args, i + 2, CliOptionsView { seek: Some(value), ..st })
            }
        } else if flag == "--duration"@ {
            if !has_value {
                Err(CliError::MissingValue(Flag::Duration))
            } else if class == NumberClass::Unparsable {
                Err(CliError::InvalidNumber(Flag::Duration))
            } else if class == NumberClass::Negative || class == NumberClass::Zero {
                Err(CliError::NonPositiveDuration)
            } else {
                scan_args(args, i + 2, CliOptionsView { duration: Some(value), ..st })
            }
        } else {
            Err(CliError::UnknownArgument(i as usize))
        }
    }
}

/// What a command line gives, `args[0]` being the program name: at least two more
/// arguments, read from position 1 on; then both paths present, and neither
/// beginning with `-`.
pub open spec fn parse_args_spec(args: Seq<(Seq<char>, NumberClass)>) -> Result<CliOptionsView, CliError> {
    if args.len() < 3 {
        Err(CliError::TooFewArguments)
    } else {
        match scan_args(args, 1, no_options()) {
            Err(e) => Err(e),
            Ok(o) => if o.input_path.len() == 0 || o.output_path.len() == 0 {
                Err(CliError::MissingPaths)
            } else if o.input_path[0] == '-' || o.output_path[0] == '-' {
                Err(CliError::HyphenPath)
            } else {
                Ok(o)
            },
        }
    }
}

/// The characters and number classes of the arguments.
pub open spec fn args_view(args: Seq<CliArg>) -> Seq<(Seq<char>, NumberClass)> {
    args.map_values(|a: CliArg| a@)
}

/// What the command line `args` gives (`args[0]` being the program name).
pub fn parse_args(args: &Vec<CliArg>) -> (r: Result<CliOptions, CliError>)
    ensures
        match r {
            Ok(o) => parse_args_spec(args_view(args@)) == Ok::<CliOptionsView, CliError>(o@),
            Err(e) => parse_args_spec(args_view(args@)) == Err::<CliOptionsView, CliError>(e),
        },
{
    let ghost v = args_view(args@);
    let n = args.len();
    if n < 3 {
        return Err(CliError::TooFewArguments);
    }
    let mut input_path = String::new();
    let mut output_path = String::new();
    let mut seek: Option<String> = None;
    let mut duration: Option<String> = None;
    let mut i: usize = 1;
    while i < n
        invariant
            n == args.len() >= 3,
            v == args_view(args@),
            1 <= i,
            scan_args(v, 1, no_options()) == scan_args(
                v,
                i as nat,
                CliOptionsView {
                    input_path: input_path@,
                    output_path: output_path@,
                    seek: optional_text(seek),
                    duration: optional_text(duration),
                },
            ),
        decreases n - i,
    {
        let ghost st = CliOptionsView {
            input_path: input_path@,
            output_path: output_path@,
            seek: optional_text(seek),
            duration: optional_text(duration),
        };
        let flag = args[i].text.as_str();
        let has_value = i + 1 < n;
        assert(v[i as int] == args@[i as int]@);
        if has_value {
            assert(v[i + 1] == args@[i + 1]@);
        }
        if same_text(flag, "--input") {
            if !has_value {
                return Err(CliError::MissingValue(Flag::Input));
            }
            input_path = args[i + 1].text.clone();
        } else if same_text(flag, "--output") {
            if !has_value {
                return Err(CliError::MissingValue(Flag::Output));
            }
            output_path = args[i + 1].text.clone();
        } else if same_text(flag, "--seek") {
            if !has_value {
                return Err(CliError::MissingValue(Flag::Seek));
            }
            match args[i + 1].number {
                NumberClass::Unparsable => {
                    return Err(CliError::InvalidNumber(Flag::Seek));
                },
                NumberClass::Negative => {
                    return Err(CliError::NegativeSeek);
                },
                _ => {
                    seek = Some(args[i + 1].text.clone());
                },
            }
        } else if same_text(flag, "--duration") {
            if !has_value {
                return Err(CliError::MissingValue(Flag::Duration));
            }
            match args[i + 1].number {
                NumberClass::Unparsable => {
                    return Err(CliError::InvalidNumber(Flag::Duration));
                },
                NumberClass::Negative | NumberClass::Zero => {
                    return Err(CliError::NonPositiveDuration);
                },
                _ => {
                    duration = Some(args[i + 1].text.clone());
                },
            }
        } else {
            return Err(CliError::UnknownArgument(i));
        }
        i = i + 2;
    }
    let ghost last = CliOptionsView {
        input_path: input_path@,
        output_path: output_path@,
        seek: optional_text(seek),
        duration: optional_text(duration),
    };
    assert(scan_args(v, i as nat, last) == Ok::<CliOptionsView, CliError>(last));
    let input_chars = chars_of(input_path.as_str());
    let output_chars = chars_of(output_path.as_str());
    if input_chars.len() == 0 || output_chars.len() == 0 {
        return Err(CliError::MissingPaths);
    }
    if input_chars[0] == '-' || output_chars[0] == '-' {
        return Err(CliError::HyphenPath);
    }
    Ok(CliOptions { input_path, output_path, seek, duration })
}


/// Whether the seek offset of `st`, if any, is the text of an argument that reads as
/// a number not below zero, and its duration cap, if any, the text of one that reads
/// as a number above zero (or NaN).
pub open spec fn values_are_admissible(args: Seq<(Seq<char>, NumberClass)>, st: CliOptionsView) -> bool {
    &&& (st.seek matches Some(t) ==> exists|j: int|
        0 <= j < args.len() && #[trigger] args[j].0 == t && (args[j].1 == NumberClass::Zero
            || args[j].1 == NumberClass::Other))
    &&& (st.duration matches Some(t) ==> exists|j: int|
        0 <= j < args.len() && #[trigger] args[j].0 == t && args[j].1 == NumberClass::Other)
}

proof fn lemma_scan_keeps_values_admissible(
    args: Seq<(Seq<char>, NumberClass)>,
    i: nat,
    st: CliOptionsView,
)
    requires
        values_are_admissible(args, st),
    ensures
        scan_args(args, i, st) matches Ok(o) ==> values_are_admissible(args, o),
    decreases args.len() - i,
{
    if i < args.len() && i + 1 < args.len() {
        let value = args[i + 1 as int].0;
        let flag = args[i as int].0;
        if flag == "--input"@ {
            lemma_scan_keeps_values_admissible(args, i + 2, CliOptionsView { input_path: value, ..st });
        } else if flag == "--output"@ {
            lemma_scan_keeps_values_admissible(args, i + 2, CliOptionsView { output_path: value, ..st });
        } else if flag == "--seek"@ {
            let class = args[i + 1 as int].1;
            if class == NumberClass::Zero || class == NumberClass::Other {
                let next = CliOptionsView { seek: Some(value), ..st };
                assert(args[i + 1 as int].0 == value);
                lemma_scan_keeps_values_admissible(args, i + 2, next);
            }
        } else if flag == "--duration"@ {
            if args[i + 1 as int].1 == NumberClass::Other {
                let next = CliOptionsView { duration: Some(value), ..st };
                assert(args[i + 1 as int].0 == value);
                lemma_scan_keeps_values_admissible(args, i + 2, next);
            }
        }
    }
}

/// A command line that is accepted names an input and an output path, neither empty
/// nor beginning with `-`, so that neither can be taken for a flag by the tools it is
/// handed to; its seek offset reads as a number not below zero, and its duration cap
/// as a number above zero (or NaN).
pub proof fn lemma_accepted_command_line(args: Seq<(Seq<char>, NumberClass)>)
    ensures
        parse_args_spec(args) matches Ok(o) ==> {
            &&& o.input_path.len() > 0 && o.input_path[0] != '-'
            &&& o.output_path.len() > 0 && o.output_path[0] != '-'
            &&& values_are_admissible(args, o)
        },
{
    lemma_scan_keeps_values_admissible(args, 1, no_options());
}


/// The text of a flag on the command line.
pub open spec fn flag_text(f: Flag) -> Seq<char> {
    match f {
        Flag::Input => "--input"@,
        Flag::Output => "--output"@,
        Flag::Seek => "--seek"@,
        Flag::Duration => "--duration"@,
    }
}

/// The setting of `o` that flag `f` gives.
pub open spec fn setting(o: CliOptionsView, f: Flag) -> Option<Seq<char>> {
    match f {
        Flag::Input => Some(o.input_path),
        Flag::Output => Some(o.output_path),
        Flag::Seek => o.seek,
        Flag::Duration => o.duration,
    }
}

/// Whether `text` is one of the four flags.
pub open spec fn is_known_flag(text: Seq<char>) -> bool {
    text == "--input"@ || text == "--output"@ || text == "--seek"@ || text == "--duration"@
}

/// The flag whose text is `text` (`--duration` for any text that is no other flag).
pub open spec fn flag_of(text: Seq<char>) -> Flag {
    if text == "--input"@ {
        Flag::Input
    } else if text == "--output"@ {
        Flag::Output
    } else if text == "--seek"@ {
        Flag::Seek
    } else {
        Flag::Duration
    }
}

/// `st` with the setting of flag `g` set to `value`.
pub open spec fn with_setting(st: CliOptionsView, g: Flag, value: Seq<char>) -> CliOptionsView {
    match g {
        Flag::Input => CliOptionsView { input_path: value, ..st },
        Flag::Output => CliOptionsView { output_path: value, ..st },
        Flag::Seek => CliOptionsView { seek: Some(value), ..st },
        Flag::Duration => CliOptionsView { duration: Some(value), ..st },
    }
}

/// Whether position `j` of `args` holds a flag with a value after it.
pub open spec fn flag_with_value(args: Seq<(Seq<char>, NumberClass)>, j: int) -> bool {
    j + 1 < args.len() && is_known_flag(args[j].0)
}

proof fn lemma_flag_texts_differ(f: Flag, g: Flag)
    ensures
        f != g ==> flag_text(f) != flag_text(g),
        is_known_flag(flag_text(f)),
        flag_of(flag_text(f)) == f,
{
    reveal_strlit("--input");
    reveal_strlit("--output");
    reveal_strlit("--seek");
    reveal_strlit("--duration");
    assert("--input"@.len() == 7);
    assert("--output"@.len() == 8);
    assert("--seek"@.len() == 6);
    assert("--duration"@.len() == 10);
}

proof fn lemma_scan_step(args: Seq<(Seq<char>, NumberClass)>, i: nat, st: CliOptionsView)
    requires
        i < args.len(),
        scan_args(args, i, st) is Ok,
    ensures
        i + 1 < args.len(),
        is_known_flag(args[i as int].0),
        flag_text(flag_of(args[i as int].0)) == args[i as int].0,
        scan_args(args, i, st) == scan_args(
            args,
            i + 2,
            with_setting(st, flag_of(args[i as int].0), args[i + 1 as int].0),
        ),
{
}

proof fn lemma_with_setting(st: CliOptionsView, g: Flag, value: Seq<char>, f: Flag)
    ensures
        setting(with_setting(st, g, value), f) == if f == g {
            Some(value)
        } else {
            setting(st, f)
        },
{
}

proof fn lemma_scan_flags_paired(args: Seq<(Seq<char>, NumberClass)>, i: nat, st: CliOptionsView, j: int)
    requires
        i % 2 == 1,
        scan_args(args, i, st) is Ok,
        i <= j < args.len(),
        j % 2 == 1,
    ensures
        j + 1 < args.len(),
        is_known_flag(args[j].0),
    decreases args.len() - i,
{
    lemma_scan_step(args, i, st);
    if j != i {
        let next = with_setting(st, flag_of(args[i as int].0), args[i + 1 as int].0);
        lemma_scan_flags_paired(args, i + 2, next, j);
    }
}

proof fn lemma_scan_absent_flag(args: Seq<(Seq<char>, NumberClass)>, i: nat, st: CliOptionsView, f: Flag)
    requires
        i % 2 == 1,
        scan_args(args, i, st) is Ok,
        forall|j: int| i <= j < args.len() && j % 2 == 1 ==> #[trigger] args[j].0 != flag_text(f),
    ensures
        setting(scan_args(args, i, st)->Ok_0, f) == setting(st, f),
    decreases args.len() - i,
{
    if i < args.len() {
        lemma_scan_step(args, i, st);
        let g = flag_of(args[i as int].0);
        let next = with_setting(st, g, args[i + 1 as int].0);
        assert(args[i as int].0 != flag_text(f));
        assert(f != g);
        lemma_with_setting(st, g, args[i + 1 as int].0, f);
        lemma_scan_absent_flag(args, i + 2, next, f);
    }
}

proof fn lemma_scan_last_flag(args: Seq<(Seq<char>, NumberClass)>, i: nat, st: CliOptionsView, f: Flag, j: int)
    requires
        i % 2 == 1,
        scan_args(args, i, st) is Ok,
        i <= j < args.len(),
        j % 2 == 1,
        args[j].0 == flag_text(f),
        forall|k: int| j < k < args.len() && k % 2 == 1 ==> #[trigger] args[k].0 != flag_text(f),
    ensures
        setting(scan_args(args, i, st)->Ok_0, f) == Some(args[j + 1].0),
    decreases args.len() - i,
{
    lemma_scan_step(args, i, st);
    let g = flag_of(args[i as int].0);
    let next = with_setting(st, g, args[i + 1 as int].0);
    if j == i {
        lemma_flag_texts_differ(f, f);
        assert(g == f);
        lemma_with_setting(st, g, args[i + 1 as int].0, f);
        lemma_scan_absent_flag(args, i + 2, next, f);
    } else {
        lemma_scan_last_flag(args, i + 2, next, f, j);
    }
}

proof fn lemma_scan_paired_all(args: Seq<(Seq<char>, NumberClass)>, st: CliOptionsView)
    requires
        scan_args(args, 1, st) is Ok,
    ensures
        forall|j: int| 1 <= j < args.len() && j % 2 == 1 ==> #[trigger] flag_with_value(args, j),
{
    assert forall|j: int| 1 <= j < args.len() && j % 2 == 1 implies #[trigger] flag_with_value(
        args,
        j,
    ) by {
        lemma_scan_flags_paired(args, 1, st, j);
    }
}

proof fn lemma_scan_last_all(args: Seq<(Seq<char>, NumberClass)>, st: CliOptionsView, f: Flag)
    requires
        scan_args(args, 1, st) is Ok,
    ensures
        forall|j: int|
            1 <= j < args.len() && j % 2 == 1 && #[trigger] args[j].0 == flag_text(f) && (
            forall|k: int|
                j < k < args.len() && k % 2 == 1 ==> #[trigger] args[k].0 != flag_text(f))
                ==> setting(scan_args(args, 1, st)->Ok_0, f) == Some(args[j + 1].0),
{
    assert forall|j: int|
        1 <= j < args.len() && j % 2 == 1 && #[trigger] args[j].0 == flag_text(f) && (forall|k: int|
            j < k < args.len() && k % 2 == 1 ==> #[trigger] args[k].0 != flag_text(f)) implies setting(
        scan_args(args, 1, st)->Ok_0,
        f,
    ) == Some(args[j + 1].0) by {
        lemma_scan_last_flag(args, 1, st, f, j);
    }
}

/// In an accepted command line every flag is followed by its value, so that flags
/// stand at positions 1, 3, 5, ...; each setting is the value that follows the last
/// occurrence of its flag; and a flag that never occurs leaves its setting as it
/// starts (empty path, no seek offset, no duration cap). In particular `--seek`
/// followed by a number not below zero, with no later `--seek`, sets the seek offset
/// to that argument's text.
pub proof fn lemma_accepted_settings(args: Seq<(Seq<char>, NumberClass)>, f: Flag)
    ensures
        parse_args_spec(args) matches Ok(o) ==> {
            &&& forall|j: int|
                1 <= j < args.len() && j % 2 == 1 ==> #[trigger] flag_with_value(args, j)
            &&& forall|j: int|
                1 <= j < args.len() && j % 2 == 1 && #[trigger] args[j].0 == flag_text(f) && (
                forall|k: int|
                    j < k < args.len() && k % 2 == 1 ==> #[trigger] args[k].0 != flag_text(f))
                    ==> setting(o, f) == Some(args[j + 1].0)
            &&& (forall|j: int|
                1 <= j < args.len() && j % 2 == 1 ==> #[trigger] args[j].0 != flag_text(f))
                ==> setting(o, f) == setting(no_options(), f)
        },
{
    if parse_args_spec(args) is Ok {
        lemma_scan_paired_all(args, no_options());
        lemma_scan_last_all(args, no_options(), f);
        if forall|j: int| 1 <= j < args.len() && j % 2 == 1 ==> #[trigger] args[j].0 != flag_text(f) {
            lemma_scan_absent_flag(args, 1, no_options(), f);
        }
    }
}

} // verus!
