use vstd::prelude::*;

verus! {

/// What the tool is asked to do with its files.
#[derive(Clone, Copy, Debug, PartialEq, Eq, Structural)]
pub enum Command {
    Extract,
    List,
    Create,
}

/// How a run proceeds once the arguments are read.
#[derive(Clone, Copy, Debug, PartialEq, Eq, Structural)]
pub enum Action {
    Run,
    Help,
    Version,
}

/// One file that a new container is made from, with the options that were in
/// force when it was named.
#[derive(Clone, Debug)]
pub struct CreateInput {
    pub path: String,
    /// The file is a finished PNG payload and is stored as it is.
    pub raw_png: bool,
    pub min_bit_depth: i32,
    pub hotspot_x: i32,
    pub hotspot_y: i32,
}

/// The mathematical value of a [`CreateInput`].
pub struct CreateInputView {
    pub path: Seq<char>,
    pub raw_png: bool,
    pub min_bit_depth: i32,
    pub hotspot_x: i32,
    pub hotspot_y: i32,
}

impl View for CreateInput {
    type V = CreateInputView;

    open spec fn view(&self) -> CreateInputView {
        CreateInputView {
            path: self.path@,
            raw_png: self.raw_png,
            min_bit_depth: self.min_bit_depth,
            hotspot_x: self.hotspot_x,
            hotspot_y: self.hotspot_y,
        }
    }
}

/// The arguments of one run.
///
/// Of the numbers that select entries (`image_index`, `width`, `height`,
/// `bit_depth`, `palette_size`) the value -1 stands for "not given". The two
/// hotspot coordinates carry a flag each instead.
#[derive(Clone, Debug)]
pub struct ParsedArgs {
    pub command: Command,
    pub output: Option<String>,
    pub image_index: i32,
    pub width: i32,
    pub height: i32,
    pub bit_depth: i32,
    pub palette_size: i32,
    pub hotspot_x: i32,
    pub hotspot_y: i32,
    pub hotspot_x_set: bool,
    pub hotspot_y_set: bool,
    pub alpha_threshold: i32,
    pub icon_only: bool,
    pub cursor_only: bool,
    pub compat_png_bitcount: bool,
    pub files: Vec<String>,
    pub create_inputs: Vec<CreateInput>,
}

/// The mathematical value of [`ParsedArgs`].
pub struct ParsedArgsView {
    pub command: Command,
    pub output: Option<Seq<char>>,
    pub image_index: i32,
    pub width: i32,
    pub height: i32,
    pub bit_depth: i32,
    pub palette_size: i32,
    pub hotspot_x: i32,
    pub hotspot_y: i32,
    pub hotspot_x_set: bool,
    pub hotspot_y_set: bool,
    pub alpha_threshold: i32,
    pub icon_only: bool,
    pub cursor_only: bool,
    pub compat_png_bitcount: bool,
    pub files: Seq<Seq<char>>,
    pub create_inputs: Seq<CreateInputView>,
}

/// The text of an optional string.
pub open spec fn opt_string_view(s: Option<String>) -> Option<Seq<char>> {
    match s {
        Some(t) => Some(t@),
        None => None,
    }
}

/// The texts of a sequence of strings, in the same order.
pub open spec fn string_views(v: Seq<String>) -> Seq<Seq<char>> {
    v.map_values(|s: String| s@)
}

/// The values of a sequence of inputs, in the same order.
pub open spec fn input_views(v: Seq<CreateInput>) -> Seq<CreateInputView> {
    v.map_values(|i: CreateInput| i@)
}

impl View for ParsedArgs {
    type V = ParsedArgsView;

    open spec fn view(&self) -> ParsedArgsView {
        ParsedArgsView {
            command: self.command,
            output: opt_string_view(self.output),
            image_index: self.image_index,
            width: self.width,
            height: self.height,
            bit_depth: self.bit_depth,
            palette_size: self.palette_size,
            hotspot_x: self.hotspot_x,
            hotspot_y: self.hotspot_y,
            hotspot_x_set: self.hotspot_x_set,
            hotspot_y_set: self.hotspot_y_set,
            alpha_threshold: self.alpha_threshold,
            icon_only: self.icon_only,
            cursor_only: self.cursor_only,
            compat_png_bitcount: self.compat_png_bitcount,
            files: string_views(self.files@),
            create_inputs: input_views(self.create_inputs@),
        }
    }
}

/// What is known of one entry of a container: its place, its picture and,
/// for a cursor, its hotspot.
#[derive(Clone, Copy, Debug, PartialEq, Eq, Structural)]
pub struct EntryMeta {
    /// The place of the entry in its container, counted from 1.
    pub index: i32,
    pub width: i32,
    pub height: i32,
    pub bit_depth: i32,
    pub palette_size: i32,
    pub is_icon: bool,
    pub hotspot_x: i32,
    pub hotspot_y: i32,
}

} // verus!
