use crate::text::{decimal_i32, opt_str_view, parse_decimal, str_eq};
use crate::types::{
    string_views, Action, Command, CreateInput, CreateInputView, ParsedArgs, ParsedArgsView,
};
use vstd::prelude::*;
use vstd::string::StrSliceExecFns;
use vstd::string::StringExecFns;

verus! {

// ---------------------------------------------------------------------------
// Errors
// ---------------------------------------------------------------------------

/// Why the arguments were refused.
#[derive(Clone, Debug)]
pub enum CliError {
    /// A long option of this name is not known.
    UnrecognizedOption(String),
    /// A short option of this letter is not known.
    InvalidOption(String),
    /// The option, written as it was given, lacks its value.
    MissingArgument(String),
    /// The value given for a number is none, or is negative.
    InvalidValue { field: String, value: String },
    /// Two different commands were given.
    MultipleCommands,
    /// Both icons only and cursors only were asked for.
    IconAndCursor,
}

/// The mathematical value of a [`CliError`].
pub enum CliErrorView {
    UnrecognizedOption(Seq<char>),
    InvalidOption(Seq<char>),
    MissingArgument(Seq<char>),
    InvalidValue { field: Seq<char>, value: Seq<char> },
    MultipleCommands,
    IconAndCursor,
}

impl View for CliError {
    type V = CliErrorView;

    open spec fn view(&self) -> CliErrorView {
        match self {
            CliError::UnrecognizedOption(name) => CliErrorView::UnrecognizedOption(name@),
            CliError::InvalidOption(letter) => CliErrorView::InvalidOption(letter@),
            CliError::MissingArgument(option) => CliErrorView::MissingArgument(option@),
            CliError::InvalidValue { field, value } => CliErrorView::InvalidValue {
                field: field@,
                value: value@,
            },
            CliError::MultipleCommands => CliErrorView::MultipleCommands,
            CliError::IconAndCursor => CliErrorView::IconAndCursor,
        }
    }
}

/// The text of the message for an error.
pub open spec fn cli_message(e: CliErrorView) -> Seq<char> {
    match e {
        CliErrorView::UnrecognizedOption(name) => "unrecognized option '--"@ + name + "'"@,
        CliErrorView::InvalidOption(letter) => "invalid option -- '"@ + letter + "'"@,
        CliErrorView::MissingArgument(option) => "option '"@ + option
            + "' requires an argument"@,
        CliErrorView::InvalidValue { field, value } => "invalid "@ + field + " value: "@ + value,
        CliErrorView::MultipleCommands => "multiple commands specified"@,
        CliErrorView::IconAndCursor => "only one of --icon and --cursor may be specified"@,
    }
}

impl CliError {
    /// The message that is shown for this error.
    pub fn message(&self) -> (r: String)
        ensures
            r@ == cli_message(self@),
    {
        let mut text: String = String::new();
        match self {
            CliError::UnrecognizedOption(name) => {
                text.append("unrecognized option '--");
                text.append(name.as_str());
                text.append("'");
            },
            CliError::InvalidOption(letter) => {
                text.append("invalid option -- '");
                text.append(letter.as_str());
                text.append("'");
            },
            CliError::MissingArgument(option) => {
                text.append("option '");
                text.append(option.as_str());
                text.append("' requires an argument");
            },
            CliError::InvalidValue { field, value } => {
                text.append("invalid ");
                text.append(field.as_str());
                text.append(" value: ");
                text.append(value.as_str());
            },
            CliError::MultipleCommands => {
                text.append("multiple commands specified");
            },
            CliError::IconAndCursor => {
                text.append("only one of --icon and --cursor may be specified");
            },
        }
        assert(text@ =~= cli_message(self@));
        text
    }
}

// ---------------------------------------------------------------------------
// Options
// ---------------------------------------------------------------------------

/// The options that the tool knows.
#[derive(Clone, Copy, Debug, PartialEq, Eq, Structural)]
pub enum CliOption {
    Help,
    Version,
    Extract,
    List,
    Create,
    Icon,
    Cursor,
    NoCompatPngBitcount,
    Output,
    Index,
    Width,
    Height,
    PaletteSize,
    BitDepth,
    HotspotX,
    HotspotY,
    AlphaThreshold,
    Raw,
}

/// The option that a long name stands for.
pub open spec fn long_option(name: Seq<char>) -> Option<CliOption> {
    if name == "help"@ {
        Some(CliOption::Help)
    } else if name == "version"@ {
        Some(CliOption::Version)
    } else if name == "extract"@ {
        Some(CliOption::Extract)
    } else if name == "list"@ {
        Some(CliOption::List)
    } else if name == "create"@ {
        Some(CliOption::Create)
    } else if name == "icon"@ {
        Some(CliOption::Icon)
    } else if name == "cursor"@ {
        Some(CliOption::Cursor)
    } else if name == "output"@ {
        Some(CliOption::Output)
    } else if name == "index"@ {
        Some(CliOption::Index)
    } else if name == "width"@ {
        Some(CliOption::Width)
    } else if name == "height"@ {
        Some(CliOption::Height)
    } else if name == "palette-size"@ {
        Some(CliOption::PaletteSize)
    } else if name == "bit-depth"@ {
        Some(CliOption::BitDepth)
    } else if name == "hotspot-x"@ {
        Some(CliOption::HotspotX)
    } else if name == "hotspot-y"@ {
        Some(CliOption::HotspotY)
    } else if name == "alpha-threshold"@ {
        Some(CliOption::AlphaThreshold)
    } else if name == "no-compat-png-bitcount"@ {
        Some(CliOption::NoCompatPngBitcount)
    } else if name == "raw"@ {
        Some(CliOption::Raw)
    } else {
        None
    }
}

/// The option that a letter stands for.
pub open spec fn short_option(letter: char) -> Option<CliOption> {
    if letter == 'x' {
        Some(CliOption::Extract)
    } else if letter == 'l' {
        Some(CliOption::List)
    } else if letter == 'c' {
        Some(CliOption::Create)
    } else if letter == 'o' {
        Some(CliOption::Output)
    } else if letter == 'i' {
        Some(CliOption::Index)
    } else if letter == 'w' {
        Some(CliOption::Width)
    } else if letter == 'h' {
        Some(CliOption::Height)
    } else if letter == 'p' {
        Some(CliOption::PaletteSize)
    } else if letter == 'b' {
        Some(CliOption::BitDepth)
    } else if letter == 'X' {
        Some(CliOption::HotspotX)
    } else if letter == 'Y' {
        Some(CliOption::HotspotY)
    } else if letter == 't' {
        Some(CliOption::AlphaThreshold)
    } else if letter == 'r' {
        Some(CliOption::Raw)
    } else {
        None
    }
}

/// Whether an option is followed by a value.
pub open spec fn takes_value(option: CliOption) -> bool {
    match option {
        CliOption::Output => true,
        CliOption::Index => true,
        CliOption::Width => true,
        CliOption::Height => true,
        CliOption::PaletteSize => true,
        CliOption::BitDepth => true,
        CliOption::HotspotX => true,
        CliOption::HotspotY => true,
        CliOption::AlphaThreshold => true,
        CliOption::Raw => true,
        _ => false,
    }
}

/// Whether the value of an option is a number.
pub open spec fn takes_number(option: CliOption) -> bool {
    takes_value(option) && option != CliOption::Output && option != CliOption::Raw
}

/// The name by which a number is called in messages.
pub open spec fn field_name(option: CliOption) -> Seq<char> {
    match option {
        CliOption::Index => "index"@,
        CliOption::Width => "width"@,
        CliOption::Height => "height"@,
        CliOption::PaletteSize => "palette-size"@,
        CliOption::BitDepth => "bit-depth"@,
        CliOption::HotspotX => "hotspot-x"@,
        CliOption::HotspotY => "hotspot-y"@,
        _ => "alpha-threshold"@,
    }
}

fn long_option_of(name: &str) -> (r: Option<CliOption>)
    ensures
        r == long_option(name@),
{
    if str_eq(name, "help") {
        Some(CliOption::Help)
    } else if str_eq(name, "version") {
        Some(CliOption::Version)
    } else if str_eq(name, "extract") {
        Some(CliOption::Extract)
    } else if str_eq(name, "list") {
        Some(CliOption::List)
    } else if str_eq(name, "create") {
        Some(CliOption::Create)
    } else if str_eq(name, "icon") {
        Some(CliOption::Icon)
    } else if str_eq(name, "cursor") {
        Some(CliOption::Cursor)
    } else if str_eq(name, "output") {
        Some(CliOption::Output)
    } else if str_eq(name, "index") {
        Some(CliOption::Index)
    } else if str_eq(name, "width") {
        Some(CliOption::Width)
    } else if str_eq(name, "height") {
        Some(CliOption::Height)
    } else if str_eq(name, "palette-size") {
        Some(CliOption::PaletteSize)
    } else if str_eq(name, "bit-depth") {
        Some(CliOption::BitDepth)
    } else if str_eq(name, "hotspot-x") {
        Some(CliOption::HotspotX)
    } else if str_eq(name, "hotspot-y") {
        Some(CliOption::HotspotY)
    } else if str_eq(name, "alpha-threshold") {
        Some(CliOption::AlphaThreshold)
    } else if str_eq(name, "no-compat-png-bitcount") {
        Some(CliOption::NoCompatPngBitcount)
    } else if str_eq(name, "raw") {
        Some(CliOption::Raw)
    } else {
        None
    }
}

fn short_option_of(letter: char) -> (r: Option<CliOption>)
    ensures
        r == short_option(letter),
{
    if letter == 'x' {
        Some(CliOption::Extract)
    } else if letter == 'l' {
        Some(CliOption::List)
    } else if letter == 'c' {
        Some(CliOption::Create)
    } else if letter == 'o' {
        Some(CliOption::Output)
    } else if letter == 'i' {
        Some(CliOption::Index)
    } else if letter == 'w' {
        Some(CliOption::Width)
    } else if letter == 'h' {
        Some(CliOption::Height)
    } else if letter == 'p' {
        Some(CliOption::PaletteSize)
    } else if letter == 'b' {
        Some(CliOption::BitDepth)
    } else if letter == 'X' {
        Some(CliOption::HotspotX)
    } else if letter == 'Y' {
        Some(CliOption::HotspotY)
    } else if letter == 't' {
        Some(CliOption::AlphaThreshold)
    } else if letter == 'r' {
        Some(CliOption::Raw)
    } else {
        None
    }
}

fn option_takes_value(option: CliOption) -> (r: bool)
    ensures
        r == takes_value(option),
{
    match option {
        CliOption::Output => true,
        CliOption::Index => true,
        CliOption::Width => true,
        CliOption::Height => true,
        CliOption::PaletteSize => true,
        CliOption::BitDepth => true,
        CliOption::HotspotX => true,
        CliOption::HotspotY => true,
        CliOption::AlphaThreshold => true,
        CliOption::Raw => true,
        _ => false,
    }
}

fn field_name_of(option: CliOption) -> (r: &'static str)
    ensures
        r@ == field_name(option),
{
    match option {
        CliOption::Index => "index",
        CliOption::Width => "width",
        CliOption::Height => "height",
        CliOption::PaletteSize => "palette-size",
        CliOption::BitDepth => "bit-depth",
        CliOption::HotspotX => "hotspot-x",
        CliOption::HotspotY => "hotspot-y",
        _ => "alpha-threshold",
    }
}

// ---------------------------------------------------------------------------
// What has been read so far
// ---------------------------------------------------------------------------

/// What the arguments read so far amount to. The command of `args` counts
/// for nothing until the last argument is read.
pub struct CliState {
    pub command: Option<Command>,
    pub args: ParsedArgsView,
}

/// The state before any argument is read: nothing selected, hotspot (0, 0),
/// alpha threshold 127, PNG bit counts written the compatible way.
pub open spec fn initial_state() -> CliState {
    CliState {
        command: None,
        args: ParsedArgsView {
            command: Command::Extract,
            output: None,
            image_index: -1i32,
            width: -1i32,
            height: -1i32,
            bit_depth: -1i32,
            palette_size: -1i32,
            hotspot_x: 0,
            hotspot_y: 0,
            hotspot_x_set: false,
            hotspot_y_set: false,
            alpha_threshold: 127,
            icon_only: false,
            cursor_only: false,
            compat_png_bitcount: true,
            files: Seq::empty(),
            create_inputs: Seq::empty(),
        },
    }
}

/// The state with one more file. As an input of a new container the file
/// takes the bit depth and the hotspot that are in force.
pub open spec fn with_file(state: CliState, path: Seq<char>, raw_png: bool) -> CliState {
    CliState {
        args: ParsedArgsView {
            files: state.args.files.push(path),
            create_inputs: state.args.create_inputs.push(
                CreateInputView {
                    path,
                    raw_png,
                    min_bit_depth: state.args.bit_depth,
                    hotspot_x: state.args.hotspot_x,
                    hotspot_y: state.args.hotspot_y,
                },
            ),
            ..state.args
        },
        ..state
    }
}

/// The state with the arguments from `from` up to `to` taken as files.
pub open spec fn with_files(state: CliState, argv: Seq<Seq<char>>, from: int, to: int) -> CliState
    decreases to - from,
{
    if to <= from {
        state
    } else {
        with_file(with_files(state, argv, from, to - 1), argv[to - 1], false)
    }
}

/// The command once another one is given: the same command again changes
/// nothing, a different one is an error.
pub open spec fn with_command(slot: Option<Command>, command: Command) -> Result<
    Option<Command>,
    CliErrorView,
> {
    match slot {
        Some(existing) => if existing != command {
            Err(CliErrorView::MultipleCommands)
        } else {
            Ok(slot)
        },
        None => Ok(Some(command)),
    }
}

/// The state after an option that stands alone.
pub open spec fn apply_flag(state: CliState, option: CliOption) -> Result<CliState, CliErrorView> {
    match option {
        CliOption::Extract => match with_command(state.command, Command::Extract) {
            Ok(c) => Ok(CliState { command: c, ..state }),
            Err(e) => Err(e),
        },
        CliOption::List => match with_command(state.command, Command::List) {
            Ok(c) => Ok(CliState { command: c, ..state }),
            Err(e) => Err(e),
        },
        CliOption::Create => match with_command(state.command, Command::Create) {
            Ok(c) => Ok(CliState { command: c, ..state }),
            Err(e) => Err(e),
        },
        CliOption::Icon => Ok(
            CliState { args: ParsedArgsView { icon_only: true, ..state.args }, ..state },
        ),
        CliOption::Cursor => Ok(
            CliState { args: ParsedArgsView { cursor_only: true, ..state.args }, ..state },
        ),
        CliOption::NoCompatPngBitcount => Ok(
            CliState {
                args: ParsedArgsView { compat_png_bitcount: false, ..state.args },
                ..state
            },
        ),
        _ => Ok(state),
    }
}

/// The number that a value stands for: a decimal number that is not
/// negative.
pub open spec fn number_value(value: Seq<char>) -> Option<i32> {
    match decimal_i32(value) {
        Some(n) => if n < 0 {
            None
        } else {
            Some(n)
        },
        None => None,
    }
}

/// The state with the number of an option set. A hotspot coordinate is
/// marked as given.
pub open spec fn with_number(state: CliState, option: CliOption, n: i32) -> CliState {
    CliState {
        args: match option {
            CliOption::Index => ParsedArgsView { image_index: n, ..state.args },
            CliOption::Width => ParsedArgsView { width: n, ..state.args },
            CliOption::Height => ParsedArgsView { height: n, ..state.args },
            CliOption::PaletteSize => ParsedArgsView { palette_size: n, ..state.args },
            CliOption::BitDepth => ParsedArgsView { bit_depth: n, ..state.args },
            CliOption::HotspotX => ParsedArgsView {
                hotspot_x: n,
                hotspot_x_set: true,
                ..state.args
            },
            CliOption::HotspotY => ParsedArgsView {
                hotspot_y: n,
                hotspot_y_set: true,
                ..state.args
            },
            CliOption::AlphaThreshold => ParsedArgsView { alpha_threshold: n, ..state.args },
            _ => state.args,
        },
        ..state
    }
}

/// The state after an option with its value.
pub open spec fn apply_value(state: CliState, option: CliOption, value: Seq<char>) -> Result<
    CliState,
    CliErrorView,
> {
    if option == CliOption::Output {
        Ok(CliState { args: ParsedArgsView { output: Some(value), ..state.args }, ..state })
    } else if option == CliOption::Raw {
        Ok(with_file(state, value, true))
    } else if takes_number(option) {
        match number_value(value) {
            None => Err(CliErrorView::InvalidValue { field: field_name(option), value }),
            Some(n) => Ok(with_number(state, option, n)),
        }
    } else {
        Ok(state)
    }
}

// ---------------------------------------------------------------------------
// One argument
// ---------------------------------------------------------------------------

/// How reading goes on after one argument.
pub enum StepView {
    /// Reading ends here with this action.
    Stop(Action),
    /// The arguments are refused.
    Fail(CliErrorView),
    /// Reading goes on in this state, behind the argument after this one
    /// where that was taken as a value.
    Next { state: CliState, took_next: bool },
}

/// The place of the first `=` in a text, and the length of the text where
/// it has none.
pub open spec fn equals_at(text: Seq<char>) -> int
    decreases text.len(),
{
    if text.len() == 0 {
        0
    } else if text[0] == '=' {
        0
    } else {
        1 + equals_at(text.skip(1))
    }
}

/// The name of a long option: what stands before the first `=`.
pub open spec fn long_name(text: Seq<char>) -> Seq<char> {
    text.take(equals_at(text))
}

/// The value written into a long option: what stands behind the first `=`.
pub open spec fn inline_value(text: Seq<char>) -> Option<Seq<char>> {
    if equals_at(text) < text.len() {
        Some(text.skip(equals_at(text) + 1))
    } else {
        None
    }
}

/// The value of an option: the one written into it, else the argument that
/// follows, which is then used up.
pub open spec fn option_value(
    inline: Option<Seq<char>>,
    argv: Seq<Seq<char>>,
    i: int,
    option_text: Seq<char>,
) -> Result<(Seq<char>, bool), CliErrorView> {
    match inline {
        Some(v) => Ok((v, false)),
        None => if i + 1 < argv.len() {
            Ok((argv[i + 1], true))
        } else {
            Err(CliErrorView::MissingArgument(option_text))
        },
    }
}

/// How reading goes on after an option with the value found for it.
pub open spec fn step_with_value(
    state: CliState,
    option: CliOption,
    found: Result<(Seq<char>, bool), CliErrorView>,
) -> StepView {
    match found {
        Err(e) => StepView::Fail(e),
        Ok(v) => match apply_value(state, option, v.0) {
            Err(e) => StepView::Fail(e),
            Ok(next) => StepView::Next { state: next, took_next: v.1 },
        },
    }
}

/// How reading goes on after the long option at place `i`.
pub open spec fn long_step(argv: Seq<Seq<char>>, i: int, state: CliState) -> StepView {
    let text = argv[i].skip(2);
    let name = long_name(text);
    match long_option(name) {
        None => StepView::Fail(CliErrorView::UnrecognizedOption(name)),
        Some(option) => if option == CliOption::Help {
            StepView::Stop(Action::Help)
        } else if option == CliOption::Version {
            StepView::Stop(Action::Version)
        } else if takes_value(option) {
            step_with_value(
                state,
                option,
                option_value(inline_value(text), argv, i, "--"@ + name),
            )
        } else {
            match apply_flag(state, option) {
                Err(e) => StepView::Fail(e),
                Ok(next) => StepView::Next { state: next, took_next: false },
            }
        },
    }
}

/// What is written behind a letter in a bundle of short options, where
/// anything is.
pub open spec fn bundle_rest(letters: Seq<char>, j: int) -> Option<Seq<char>> {
    if j + 1 < letters.len() {
        Some(letters.skip(j + 1))
    } else {
        None
    }
}

/// How reading goes on after the short options from letter `j` on of the
/// bundle at place `i`. Letters are read one by one until one takes a
/// value: what is left of the bundle is that value, or else the argument
/// that follows.
pub open spec fn short_step(
    argv: Seq<Seq<char>>,
    i: int,
    letters: Seq<char>,
    j: int,
    state: CliState,
) -> StepView
    decreases letters.len() - j,
{
    if j < 0 || j >= letters.len() {
        StepView::Next { state, took_next: false }
    } else {
        match short_option(letters[j]) {
            None => StepView::Fail(CliErrorView::InvalidOption(seq![letters[j]])),
            Some(option) => if takes_value(option) {
                step_with_value(
                    state,
                    option,
                    option_value(bundle_rest(letters, j), argv, i, seq!['-', letters[j]]),
                )
            } else {
                match apply_flag(state, option) {
                    Err(e) => StepView::Fail(e),
                    Ok(next) => short_step(argv, i, letters, j + 1, next),
                }
            },
        }
    }
}

/// Whether an argument starts with a dash.
pub open spec fn starts_with_dash(arg: Seq<char>) -> bool {
    arg.len() > 0 && arg[0] == '-'
}

/// Whether an argument starts with two dashes.
pub open spec fn starts_with_two_dashes(arg: Seq<char>) -> bool {
    arg.len() >= 2 && arg[0] == '-' && arg[1] == '-'
}

/// The outcome once every argument is read: icons only and cursors only
/// cannot both be asked for, and without a command there are no arguments
/// to run with.
pub open spec fn finish(state: CliState) -> Result<(Action, Option<ParsedArgsView>), CliErrorView> {
    if state.args.icon_only && state.args.cursor_only {
        Err(CliErrorView::IconAndCursor)
    } else {
        match state.command {
            None => Ok((Action::Run, None)),
            Some(command) => Ok((Action::Run, Some(ParsedArgsView { command, ..state.args }))),
        }
    }
}

/// The outcome of reading the arguments from place `i` on.
///
/// `--` makes files of everything behind it. `-` and whatever does not start
/// with a dash is a file. Two dashes start a long option, one dash a bundle
/// of short ones.
pub open spec fn parse_from(argv: Seq<Seq<char>>, i: int, state: CliState) -> Result<
    (Action, Option<ParsedArgsView>),
    CliErrorView,
>
    decreases argv.len() - i,
{
    if i < 0 || i >= argv.len() {
        finish(state)
    } else if argv[i] == "--"@ {
        finish(with_files(state, argv, i + 1, argv.len() as int))
    } else if argv[i] == "-"@ || !starts_with_dash(argv[i]) {
        parse_from(argv, i + 1, with_file(state, argv[i], false))
    } else {
        let step = if starts_with_two_dashes(argv[i]) {
            long_step(argv, i, state)
        } else {
            short_step(argv, i, argv[i].skip(1), 0, state)
        };
        match step {
            StepView::Stop(action) => Ok((action, None)),
            StepView::Fail(e) => Err(e),
            StepView::Next { state: next, took_next } => if took_next && i + 1 < argv.len() {
                parse_from(argv, i + 2, next)
            } else {
                parse_from(argv, i + 1, next)
            },
        }
    }
}

/// The outcome of reading all arguments.
pub open spec fn parsed(argv: Seq<Seq<char>>) -> Result<
    (Action, Option<ParsedArgsView>),
    CliErrorView,
> {
    parse_from(argv, 0, initial_state())
}

// ---------------------------------------------------------------------------
// Reading the arguments
// ---------------------------------------------------------------------------

/// The arguments read so far.
struct Parser {
    command: Option<Command>,
    args: ParsedArgs,
}

impl View for Parser {
    type V = CliState;

    closed spec fn view(&self) -> CliState {
        CliState { command: self.command, args: self.args@ }
    }
}

/// The value of optional arguments.
pub open spec fn opt_args_view(args: Option<ParsedArgs>) -> Option<ParsedArgsView> {
    match args {
        Some(a) => Some(a@),
        None => None,
    }
}

fn new_parser() -> (p: Parser)
    ensures
        p@ == initial_state(),
{
    let p = Parser {
        command: None,
        args: ParsedArgs {
            command: Command::Extract,
            output: None,
            image_index: -1,
            width: -1,
            height: -1,
            bit_depth: -1,
            palette_size: -1,
            hotspot_x: 0,
            hotspot_y: 0,
            hotspot_x_set: false,
            hotspot_y_set: false,
            alpha_threshold: 127,
            icon_only: false,
            cursor_only: false,
            compat_png_bitcount: true,
            files: Vec::new(),
            create_inputs: Vec::new(),
        },
    };
    assert(p@.args.files =~= Seq::<Seq<char>>::empty());
    assert(p@.args.create_inputs =~= Seq::<CreateInputView>::empty());
    p
}

fn add_file(p: &mut Parser, path: String, raw_png: bool)
    ensures
        final(p)@ == with_file(old(p)@, path@, raw_png),
{
    let input = CreateInput {
        path: path.clone(),
        raw_png,
        min_bit_depth: p.args.bit_depth,
        hotspot_x: p.args.hotspot_x,
        hotspot_y: p.args.hotspot_y,
    };
    p.args.files.push(path);
    p.args.create_inputs.push(input);
    assert(p@.args.files =~= old(p)@.args.files.push(path@));
    assert(p@.args.create_inputs =~= old(p)@.args.create_inputs.push(input@));
}

/// Takes note of a command. The same command may be given again; a
/// different one may not.
fn set_command(slot: &mut Option<Command>, command: Command) -> (r: Result<(), CliError>)
    ensures
        match r {
            Ok(_) => with_command(*old(slot), command) == Ok::<Option<Command>, CliErrorView>(
                *final(slot),
            ),
            Err(e) => with_command(*old(slot), command) == Err::<Option<Command>, CliErrorView>(
                e@,
            ),
        },
{
    match *slot {
        Some(existing) => {
            if existing != command {
                return Err(CliError::MultipleCommands);
            }
            Ok(())
        },
        None => {
            *slot = Some(command);
            Ok(())
        },
    }
}

fn set_flag(p: &mut Parser, option: CliOption) -> (r: Result<(), CliError>)
    ensures
        match r {
            Ok(_) => apply_flag(old(p)@, option) == Ok::<CliState, CliErrorView>(final(p)@),
            Err(e) => apply_flag(old(p)@, option) == Err::<CliState, CliErrorView>(e@),
        },
{
    match option {
        CliOption::Extract => set_command(&mut p.command, Command::Extract),
        CliOption::List => set_command(&mut p.command, Command::List),
        CliOption::Create => set_command(&mut p.command, Command::Create),
        CliOption::Icon => {
            p.args.icon_only = true;
            Ok(())
        },
        CliOption::Cursor => {
            p.args.cursor_only = true;
            Ok(())
        },
        CliOption::NoCompatPngBitcount => {
            p.args.compat_png_bitcount = false;
            Ok(())
        },
        _ => Ok(()),
    }
}

/// Reads the number given for `field`: a decimal number that is not
/// negative.
fn parse_i32(field: &str, value: String) -> (r: Result<i32, CliError>)
    ensures
        match r {
            Ok(n) => number_value(value@) == Some(n),
            Err(e) => number_value(value@) is None && e@ == (CliErrorView::InvalidValue {
                field: field@,
                value: value@,
            }),
        },
{
    match parse_decimal(value.as_str()) {
        Some(n) => {
            if n < 0 {
                return Err(CliError::InvalidValue { field: field.to_string(), value });
            }
            Ok(n)
        },
        None => Err(CliError::InvalidValue { field: field.to_string(), value }),
    }
}

fn set_number(p: &mut Parser, option: CliOption, n: i32)
    requires
        takes_number(option),
    ensures
        final(p)@ == with_number(old(p)@, option, n),
{
    match option {
        CliOption::Index => {
            p.args.image_index = n;
        },
        CliOption::Width => {
            p.args.width = n;
        },
        CliOption::Height => {
            p.args.height = n;
        },
        CliOption::PaletteSize => {
            p.args.palette_size = n;
        },
        CliOption::BitDepth => {
            p.args.bit_depth = n;
        },
        CliOption::HotspotX => {
            p.args.hotspot_x = n;
            p.args.hotspot_x_set = true;
        },
        CliOption::HotspotY => {
            p.args.hotspot_y = n;
            p.args.hotspot_y_set = true;
        },
        _ => {
            p.args.alpha_threshold = n;
        },
    }
}

fn set_value(p: &mut Parser, option: CliOption, value: String) -> (r: Result<(), CliError>)
    ensures
        match r {
            Ok(_) => apply_value(old(p)@, option, value@) == Ok::<CliState, CliErrorView>(
                final(p)@,
            ),
            Err(e) => apply_value(old(p)@, option, value@) == Err::<CliState, CliErrorView>(e@),
        },
{
    match option {
        CliOption::Output => {
            p.args.output = Some(value);
            Ok(())
        },
        CliOption::Raw => {
            add_file(p, value, true);
            Ok(())
        },
        _ => {
            if option_takes_value(option) {
                match parse_i32(field_name_of(option), value) {
                    Err(e) => Err(e),
                    Ok(n) => {
                        set_number(p, option, n);
                        Ok(())
                    },
                }
            } else {
                Ok(())
            }
        },
    }
}

/// Where the first `=` stands is settled by what stands before it.
proof fn lemma_equals_at(text: Seq<char>, p: int)
    requires
        0 <= p <= text.len(),
        forall|k: int| 0 <= k < p ==> text[k] != '=',
        p == text.len() || text[p] == '=',
    ensures
        equals_at(text) == p,
    decreases p,
{
    if p > 0 {
        let rest = text.skip(1);
        assert forall|k: int| 0 <= k < p - 1 implies rest[k] != '=' by {
            assert(rest[k] == text[k + 1]);
        }
        lemma_equals_at(rest, p - 1);
    }
}

/// Parts a long option at its first `=` into name and value.
fn split_long(text: &str) -> (r: (&str, Option<&str>))
    ensures
        r.0@ == long_name(text@),
        opt_str_view(r.1) == inline_value(text@),
{
    let n: usize = text.unicode_len();
    let mut p: usize = 0;
    while p < n && text.get_char(p) != '='
        invariant
            p <= n,
            n == text@.len(),
            forall|k: int| 0 <= k < p ==> text@[k] != '=',
        decreases n - p,
    {
        p += 1;
    }
    proof {
        lemma_equals_at(text@, p as int);
    }
    if p < n {
        (text.substring_char(0, p), Some(text.substring_char(p + 1, n)))
    } else {
        assert(text@.take(n as int) =~= text@);
        (text, None)
    }
}

/// Finds the value of an option: the one written into it, else the
/// argument that follows.
fn take_value(value: Option<&str>, argv: &[String], i: usize, option_text: String) -> (r: Result<
    (String, bool),
    CliError,
>)
    requires
        i < argv.len(),
    ensures
        match r {
            Ok(found) => option_value(
                opt_str_view(value),
                string_views(argv@),
                i as int,
                option_text@,
            ) == Ok::<(Seq<char>, bool), CliErrorView>((found.0@, found.1)),
            Err(e) => option_value(
                opt_str_view(value),
                string_views(argv@),
                i as int,
                option_text@,
            ) == Err::<(Seq<char>, bool), CliErrorView>(e@),
        },
        r matches Ok(found) && found.1 ==> i + 1 < argv.len(),
{
    match value {
        Some(v) => Ok((v.to_string(), false)),
        None => {
            if i + 1 < argv.len() {
                Ok((argv[i + 1].clone(), true))
            } else {
                Err(CliError::MissingArgument(option_text))
            }
        },
    }
}

/// Finds the value of the short option at letter `j` of a bundle: what is
/// left of the bundle, else the argument that follows.
fn take_short_value(arg: &str, j: usize, argv: &[String], i: usize) -> (r: Result<
    (String, bool),
    CliError,
>)
    requires
        i < argv.len(),
        arg@ == argv[i as int]@,
        1 <= j < arg@.len(),
    ensures
        match r {
            Ok(found) => option_value(
                bundle_rest(arg@.skip(1), j - 1),
                string_views(argv@),
                i as int,
                seq!['-', arg@[j as int]],
            ) == Ok::<(Seq<char>, bool), CliErrorView>((found.0@, found.1)),
            Err(e) => option_value(
                bundle_rest(arg@.skip(1), j - 1),
                string_views(argv@),
                i as int,
                seq!['-', arg@[j as int]],
            ) == Err::<(Seq<char>, bool), CliErrorView>(e@),
        },
        r matches Ok(found) && found.1 ==> i + 1 < argv.len(),
{
    let n: usize = arg.unicode_len();
    let rest: Option<&str> = if j + 1 < n {
        let r: &str = arg.substring_char(j + 1, n);
        assert(r@ =~= arg@.skip(1).skip(j as int));
        Some(r)
    } else {
        None
    };
    let mut option_text: String = String::new();
    proof {
        reveal_strlit("-");
    }
    option_text.append("-");
    option_text.append(arg.substring_char(j, j + 1));
    assert(option_text@ =~= seq!['-', arg@[j as int]]);
    take_value(rest, argv, i, option_text)
}

/// How reading goes on after one argument.
enum Step {
    Stop(Action),
    Fail(CliError),
    Next(bool),
}

/// Whether a step, with the state it left, is the step wanted.
spec fn step_is(step: Step, state: CliState, wanted: StepView) -> bool {
    match step {
        Step::Stop(action) => wanted == StepView::Stop(action),
        Step::Fail(e) => wanted == StepView::Fail(e@),
        Step::Next(took_next) => wanted == (StepView::Next { state, took_next }),
    }
}

/// The value of what was found for an option.
spec fn found_view(found: Result<(String, bool), CliError>) -> Result<
    (Seq<char>, bool),
    CliErrorView,
> {
    match found {
        Ok(v) => Ok((v.0@, v.1)),
        Err(e) => Err(e@),
    }
}

fn step_with(p: &mut Parser, option: CliOption, found: Result<(String, bool), CliError>) -> (r:
    Step)
    ensures
        step_is(r, final(p)@, step_with_value(old(p)@, option, found_view(found))),
        r matches Step::Next(took_next) && took_next ==> (found matches Ok(v) && v.1),
{
    match found {
        Err(e) => Step::Fail(e),
        Ok((value, took_next)) => match set_value(p, option, value) {
            Err(e) => Step::Fail(e),
            Ok(_) => Step::Next(took_next),
        },
    }
}

fn read_long(argv: &[String], i: usize, p: &mut Parser) -> (r: Step)
    requires
        i < argv.len(),
        starts_with_two_dashes(argv[i as int]@),
    ensures
        step_is(r, final(p)@, long_step(string_views(argv@), i as int, old(p)@)),
        r matches Step::Next(took_next) && took_next ==> i + 1 < argv.len(),
{
    let arg: &str = argv[i].as_str();
    let n: usize = arg.unicode_len();
    let text: &str = arg.substring_char(2, n);
    assert(text@ =~= arg@.skip(2));
    let (name, inline) = split_long(text);
    match long_option_of(name) {
        None => Step::Fail(CliError::UnrecognizedOption(name.to_string())),
        Some(option) => {
            if option == CliOption::Help {
                Step::Stop(Action::Help)
            } else if option == CliOption::Version {
                Step::Stop(Action::Version)
            } else if option_takes_value(option) {
                let mut option_text: String = String::new();
                option_text.append("--");
                option_text.append(name);
                assert(option_text@ =~= "--"@ + name@);
                let found = take_value(inline, argv, i, option_text);
                step_with(p, option, found)
            } else {
                match set_flag(p, option) {
                    Err(e) => Step::Fail(e),
                    Ok(_) => Step::Next(false),
                }
            }
        },
    }
}

fn read_short(argv: &[String], i: usize, p: &mut Parser) -> (r: Step)
    requires
        i < argv.len(),
        starts_with_dash(argv[i as int]@),
    ensures
        step_is(
            r,
            final(p)@,
            short_step(string_views(argv@), i as int, argv[i as int]@.skip(1), 0, old(p)@),
        ),
        r matches Step::Next(took_next) && took_next ==> i + 1 < argv.len(),
{
    let arg: &str = argv[i].as_str();
    let n: usize = arg.unicode_len();
    let ghost views = string_views(argv@);
    let ghost letters = arg@.skip(1);
    let ghost wanted = short_step(views, i as int, letters, 0, p@);
    let mut j: usize = 1;
    while j < n
        invariant
            1 <= j <= n,
            n == arg@.len(),
            i < argv.len(),
            arg@ == argv[i as int]@,
            views == string_views(argv@),
            letters == arg@.skip(1),
            wanted == short_step(views, i as int, letters, 0, old(p)@),
            wanted == short_step(views, i as int, letters, j - 1, p@),
        decreases n - j,
    {
        let letter: char = arg.get_char(j);
        assert(letters[j - 1] == letter);
        match short_option_of(letter) {
            None => {
                let text: &str = arg.substring_char(j, j + 1);
                assert(text@ =~= seq![letter]);
                return Step::Fail(CliError::InvalidOption(text.to_string()));
            },
            Some(option) => {
                if option_takes_value(option) {
                    let found = take_short_value(arg, j, argv, i);
                    return step_with(p, option, found);
                } else {
                    match set_flag(p, option) {
                        Err(e) => {
                            return Step::Fail(e);
                        },
                        Ok(_) => {},
                    }
                }
            },
        }
        j += 1;
    }
    Step::Next(false)
}

/// Tells whether an argument starts with a dash, and whether with two.
fn leading_dashes(arg: &str) -> (r: (bool, bool))
    ensures
        r.0 == starts_with_dash(arg@),
        r.1 == starts_with_two_dashes(arg@),
{
    let n: usize = arg.unicode_len();
    let one: bool = n > 0 && arg.get_char(0) == '-';
    let two: bool = one && n >= 2 && arg.get_char(1) == '-';
    (one, two)
}

fn finish_parse(p: Parser) -> (r: Result<(Action, Option<ParsedArgs>), CliError>)
    ensures
        match r {
            Ok(done) => finish(p@) == Ok::<(Action, Option<ParsedArgsView>), CliErrorView>(
                (done.0, opt_args_view(done.1)),
            ),
            Err(e) => finish(p@) == Err::<(Action, Option<ParsedArgsView>), CliErrorView>(e@),
        },
{
    if p.args.icon_only && p.args.cursor_only {
        return Err(CliError::IconAndCursor);
    }
    match p.command {
        None => Ok((Action::Run, None)),
        Some(command) => {
            let mut args = p.args;
            args.command = command;
            Ok((Action::Run, Some(args)))
        },
    }
}

/// Reads the arguments of a run: what is to be done, with which options,
/// on which files.
pub fn parse_args(argv: &[String]) -> (r: Result<(Action, Option<ParsedArgs>), CliError>)
    ensures
        match r {
            Ok(done) => parsed(string_views(argv@)) == Ok::<
                (Action, Option<ParsedArgsView>),
                CliErrorView,
            >((done.0, opt_args_view(done.1))),
            Err(e) => parsed(string_views(argv@)) == Err::<
                (Action, Option<ParsedArgsView>),
                CliErrorView,
            >(e@),
        },
{
    let ghost views = string_views(argv@);
    let mut p: Parser = new_parser();
    let mut i: usize = 0;
    while i < argv.len()
        invariant
            i <= argv.len(),
            views == string_views(argv@),
            parsed(views) == parse_from(views, i as int, p@),
        decreases argv.len() - i,
    {
        let arg: &str = argv[i].as_str();
        assert(views[i as int] == arg@);
        if str_eq(arg, "--") {
            let ghost start = p@;
            let mut j: usize = i + 1;
            while j < argv.len()
                invariant
                    i + 1 <= j <= argv.len(),
                    views == string_views(argv@),
                    p@ == with_files(start, views, i + 1, j as int),
                decreases argv.len() - j,
            {
                assert(views[j as int] == argv[j as int]@);
                add_file(&mut p, argv[j].clone(), false);
                j += 1;
            }
            return finish_parse(p);
        }
        let (one, two) = leading_dashes(arg);
        if str_eq(arg, "-") || !one {
            add_file(&mut p, argv[i].clone(), false);
            i += 1;
            continue ;
        }
        let step: Step = if two {
            read_long(argv, i, &mut p)
        } else {
            read_short(argv, i, &mut p)
        };
        match step {
            Step::Stop(action) => {
                return Ok((action, None));
            },
            Step::Fail(e) => {
                return Err(e);
            },
            Step::Next(took_next) => {
                if took_next {
                    i += 2;
                } else {
                    i += 1;
                }
            },
        }
    }
    finish_parse(p)
}

} // verus!
