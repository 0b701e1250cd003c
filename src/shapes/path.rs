//! Path commands and their text form.
use vstd::prelude::*;
use crate::draw_svg::{ToSvg, closing_text, close_element};
use crate::num::{Num, num_text};
use crate::shapes::path_syntax::{parse_path, parse_path_commands};
use crate::style::{Style, empty_style};
use crate::text::{push_char, push_str, push_string};

verus! {

/// One drawing instruction of a path. Upper-case letters in the text form
/// are the absolute variants (`...To`), lower-case the relative ones
/// (`...By`); the smooth quadratic curve has only an absolute form.
#[derive(Clone, Copy, Debug, PartialEq, Eq, Structural)]
pub enum PathCommand {
    MoveTo(Num, Num),
    LineTo(Num, Num),
    HorizontalTo(Num),
    VerticalTo(Num),
    CurveTo(Num, Num, Num, Num, Num, Num),
    SmoothCurveTo(Num, Num, Num, Num),
    QuadraticBezierCurveTo(Num, Num, Num, Num),
    SmoothQuadraticBezierCurveTo(Num, Num),
    EllipticalArcTo(Num, Num, Num, bool, bool, Num, Num),
    MoveBy(Num, Num),
    LineBy(Num, Num),
    HorizontalBy(Num),
    VerticalBy(Num),
    CurveBy(Num, Num, Num, Num, Num, Num),
    SmoothCurveBy(Num, Num, Num, Num),
    QuadraticBezierCurveBy(Num, Num, Num, Num),
    EllipticalArcBy(Num, Num, Num, bool, bool, Num, Num),
    Close,
}

/// A flag as an operand: 1 when set, else 0.
pub open spec fn flag_num(b: bool) -> Num {
    Num { micros: if b { 1000000 } else { 0 } }
}

/// The letter that names a command in the text form.
pub open spec fn letter(c: PathCommand) -> char {
    match c {
        PathCommand::MoveTo(..) => 'M',
        PathCommand::LineTo(..) => 'L',
        PathCommand::HorizontalTo(..) => 'H',
        PathCommand::VerticalTo(..) => 'V',
        PathCommand::CurveTo(..) => 'C',
        PathCommand::SmoothCurveTo(..) => 'S',
        PathCommand::QuadraticBezierCurveTo(..) => 'Q',
        PathCommand::SmoothQuadraticBezierCurveTo(..) => 'T',
        PathCommand::EllipticalArcTo(..) => 'A',
        PathCommand::MoveBy(..) => 'm',
        PathCommand::LineBy(..) => 'l',
        PathCommand::HorizontalBy(..) => 'h',
        PathCommand::VerticalBy(..) => 'v',
        PathCommand::CurveBy(..) => 'c',
        PathCommand::SmoothCurveBy(..) => 's',
        PathCommand::QuadraticBezierCurveBy(..) => 'q',
        PathCommand::EllipticalArcBy(..) => 'a',
        PathCommand::Close => 'Z',
    }
}

/// The operands of a command in text order, flags as 0 or 1.
pub open spec fn operands(c: PathCommand) -> Seq<Num> {
    match c {
        PathCommand::MoveTo(x, y) => seq![x, y],
        PathCommand::LineTo(x, y) => seq![x, y],
        PathCommand::HorizontalTo(x) => seq![x],
        PathCommand::VerticalTo(y) => seq![y],
        PathCommand::CurveTo(x1, y1, x2, y2, x, y) => seq![x1, y1, x2, y2, x, y],
        PathCommand::SmoothCurveTo(x2, y2, x, y) => seq![x2, y2, x, y],
        PathCommand::QuadraticBezierCurveTo(x1, y1, x, y) => seq![x1, y1, x, y],
        PathCommand::SmoothQuadraticBezierCurveTo(x, y) => seq![x, y],
        PathCommand::EllipticalArcTo(rx, ry, rot, large, sweep, x, y) => seq![
            rx,
            ry,
            rot,
            flag_num(large),
            flag_num(sweep),
            x,
            y,
        ],
        PathCommand::MoveBy(x, y) => seq![x, y],
        PathCommand::LineBy(x, y) => seq![x, y],
        PathCommand::HorizontalBy(x) => seq![x],
        PathCommand::VerticalBy(y) => seq![y],
        PathCommand::CurveBy(x1, y1, x2, y2, x, y) => seq![x1, y1, x2, y2, x, y],
        PathCommand::SmoothCurveBy(x2, y2, x, y) => seq![x2, y2, x, y],
        PathCommand::QuadraticBezierCurveBy(x1, y1, x, y) => seq![x1, y1, x, y],
        PathCommand::EllipticalArcBy(rx, ry, rot, large, sweep, x, y) => seq![
            rx,
            ry,
            rot,
            flag_num(large),
            flag_num(sweep),
            x,
            y,
        ],
        PathCommand::Close => seq![],
    }
}

/// Each operand preceded by one space.
pub open spec fn operands_text(ns: Seq<Num>) -> Seq<char>
    decreases ns.len(),
{
    if ns.len() == 0 {
        seq![]
    } else {
        seq![' '] + num_text(ns[0].micros as int) + operands_text(ns.drop_first())
    }
}

/// The text of one command: its letter and its operands (`L 300 100`).
pub open spec fn command_text(c: PathCommand) -> Seq<char> {
    seq![letter(c)] + operands_text(operands(c))
}

/// The text of a command sequence: each command followed by one space.
pub open spec fn commands_text(cmds: Seq<PathCommand>) -> Seq<char>
    decreases cmds.len(),
{
    if cmds.len() == 0 {
        seq![]
    } else {
        command_text(cmds[0]) + seq![' '] + commands_text(cmds.drop_first())
    }
}

proof fn lemma_commands_text_push(cmds: Seq<PathCommand>, c: PathCommand)
    ensures
        commands_text(cmds.push(c)) == commands_text(cmds) + command_text(c) + seq![' '],
    decreases cmds.len(),
{
    if cmds.len() == 0 {
        assert(cmds.push(c).drop_first() =~= Seq::<PathCommand>::empty());
        assert(cmds.push(c)[0] == c);
        assert(commands_text(Seq::<PathCommand>::empty()) == Seq::<char>::empty());
        assert(commands_text(cmds.push(c)) =~= commands_text(cmds) + command_text(c) + seq![' ']);
    } else {
        lemma_commands_text_push(cmds.drop_first(), c);
        assert(cmds.push(c).drop_first() =~= cmds.drop_first().push(c));
        assert(commands_text(cmds.push(c)) =~= commands_text(cmds) + command_text(c) + seq![' ']);
    }
}

fn push_operand(s: &mut String, n: Num)
    ensures
        final(s)@ == old(s)@ + seq![' '] + num_text(n.micros as int),
{
    push_char(s, ' ');
    n.write_to(s);
    assert(final(s)@ =~= old(s)@ + seq![' '] + num_text(n.micros as int));
}

fn flag_operand(b: bool) -> (r: Num)
    ensures
        r == flag_num(b),
{
    if b {
        Num { micros: 1000000 }
    } else {
        Num { micros: 0 }
    }
}

fn push_operands(s: &mut String, ns: &[Num])
    ensures
        final(s)@ == old(s)@ + operands_text(ns@),
{
    let mut i: usize = 0;
    assert(ns@.subrange(0, ns@.len() as int) =~= ns@);
    while i < ns.len()
        invariant
            i <= ns@.len(),
            s@ + operands_text(ns@.subrange(i as int, ns@.len() as int)) == old(s)@
                + operands_text(ns@),
        decreases ns.len() - i,
    {
        let ghost rest = ns@.subrange(i as int, ns@.len() as int);
        assert(rest.drop_first() =~= ns@.subrange(i + 1, ns@.len() as int));
        push_operand(s, ns[i]);
        i = i + 1;
        assert(old(s)@ + operands_text(ns@) == s@ + operands_text(
            ns@.subrange(i as int, ns@.len() as int),
        )) by {
            assert(operands_text(rest) == seq![' '] + num_text(rest[0].micros as int)
                + operands_text(rest.drop_first()));
        }
    }
    assert(ns@.subrange(i as int, ns@.len() as int) =~= Seq::<Num>::empty());
}

impl PathCommand {
    /// The letter and the operands of the command.
    fn parts(&self) -> (r: (char, Vec<Num>))
        ensures
            r.0 == letter(*self),
            r.1@ == operands(*self),
    {
        match *self {
            PathCommand::MoveTo(x, y) => ('M', vec![x, y]),
            PathCommand::LineTo(x, y) => ('L', vec![x, y]),
            PathCommand::HorizontalTo(x) => ('H', vec![x]),
            PathCommand::VerticalTo(y) => ('V', vec![y]),
            PathCommand::CurveTo(x1, y1, x2, y2, x, y) => ('C', vec![x1, y1, x2, y2, x, y]),
            PathCommand::SmoothCurveTo(x2, y2, x, y) => ('S', vec![x2, y2, x, y]),
            PathCommand::QuadraticBezierCurveTo(x1, y1, x, y) => ('Q', vec![x1, y1, x, y]),
            PathCommand::SmoothQuadraticBezierCurveTo(x, y) => ('T', vec![x, y]),
            PathCommand::EllipticalArcTo(rx, ry, rot, large, sweep, x, y) => {
                let v = vec![rx, ry, rot, flag_operand(large), flag_operand(sweep), x, y];
                ('A', v)
            },
            PathCommand::MoveBy(x, y) => ('m', vec![x, y]),
            PathCommand::LineBy(x, y) => ('l', vec![x, y]),
            PathCommand::HorizontalBy(x) => ('h', vec![x]),
            PathCommand::VerticalBy(y) => ('v', vec![y]),
            PathCommand::CurveBy(x1, y1, x2, y2, x, y) => ('c', vec![x1, y1, x2, y2, x, y]),
            PathCommand::SmoothCurveBy(x2, y2, x, y) => ('s', vec![x2, y2, x, y]),
            PathCommand::QuadraticBezierCurveBy(x1, y1, x, y) => ('q', vec![x1, y1, x, y]),
            PathCommand::EllipticalArcBy(rx, ry, rot, large, sweep, x, y) => {
                let v = vec![rx, ry, rot, flag_operand(large), flag_operand(sweep), x, y];
                ('a', v)
            },
            PathCommand::Close => ('Z', vec![]),
        }
    }

    /// Appends the text of the command to `s`.
    pub fn write_to(&self, s: &mut String)
        ensures
            final(s)@ == old(s)@ + command_text(*self),
    {
        let (l, ns) = self.parts();
        push_char(s, l);
        push_operands(s, ns.as_slice());
        assert(final(s)@ =~= old(s)@ + command_text(*self));
    }

    /// The text of the command: its letter and its operands, separated by
    /// single spaces (`C 1 2 3 4 5 6`, `A 5 5 0 0 1 10 0`, `Z`).
    pub fn to_text(&self) -> (s: String)
        ensures
            s@ == command_text(*self),
    {
        let mut s = String::new();
        self.write_to(&mut s);
        assert(s@ =~= command_text(*self));
        s
    }
}

/// Appends the text of a command sequence to `s`: each command followed by
/// one space.
pub fn write_commands(cmds: &Vec<PathCommand>, s: &mut String)
    ensures
        final(s)@ == old(s)@ + commands_text(cmds@),
{
    let mut i: usize = 0;
    while i < cmds.len()
        invariant
            i <= cmds@.len(),
            s@ == old(s)@ + commands_text(cmds@.subrange(0, i as int)),
        decreases cmds.len() - i,
    {
        proof {
            lemma_commands_text_push(cmds@.subrange(0, i as int), cmds@[i as int]);
            assert(cmds@.subrange(0, i + 1) =~= cmds@.subrange(0, i as int).push(cmds@[i as int]));
        }
        cmds[i].write_to(s);
        push_char(s, ' ');
        i = i + 1;
        assert(s@ =~= old(s)@ + commands_text(cmds@.subrange(0, i as int)));
    }
    assert(cmds@.subrange(0, i as int) =~= cmds@);
}

/// A `<path>` element: an ordered sequence of commands, drawn in order.
#[derive(Debug, Clone)]
pub struct Path {
    pub id: String,
    pub d: Vec<PathCommand>,
    pub style: Style,
}

/// The markup of a path.
pub open spec fn path_text(p: Path) -> Seq<char> {
    "<path id=\""@ + p.id@ + "\" d=\""@ + commands_text(p.d@) + "\""@ + closing_text(p.style@)
}

impl Path {
    /// A path with no commands and no decoration.
    pub fn new(id: &str) -> (r: Path)
        ensures
            r.id@ == id@,
            r.d@ == Seq::<PathCommand>::empty(),
            r.style@ == empty_style(),
    {
        Path { id: id.to_string(), d: Vec::new(), style: Style::new() }
    }

    /// A path with the commands that `path` reads as (see `path_syntax`).
    pub fn from_str(id: &str, path: &str) -> (r: Path)
        ensures
            r.id@ == id@,
            r.d@ == parse_path(path@),
            r.style@ == empty_style(),
    {
        let mut p = Path::new(id);
        p.d = parse_path_commands(path);
        p
    }

    /// The path with `command` appended.
    pub fn add_command(self, command: PathCommand) -> (r: Path)
        ensures
            r.id == self.id,
            r.d@ == self.d@.push(command),
            r.style == self.style,
    {
        let mut p = self;
        p.d.push(command);
        p
    }

    pub fn line_to(self, x: Num, y: Num) -> (r: Path)
        ensures
            r.id == self.id,
            r.d@ == self.d@.push(PathCommand::LineTo(x, y)),
            r.style == self.style,
    {
        self.add_command(PathCommand::LineTo(x, y))
    }

    pub fn move_to(self, x: Num, y: Num) -> (r: Path)
        ensures
            r.id == self.id,
            r.d@ == self.d@.push(PathCommand::MoveTo(x, y)),
            r.style == self.style,
    {
        self.add_command(PathCommand::MoveTo(x, y))
    }

    pub fn horizontal_to(self, x: Num) -> (r: Path)
        ensures
            r.id == self.id,
            r.d@ == self.d@.push(PathCommand::HorizontalTo(x)),
            r.style == self.style,
    {
        self.add_command(PathCommand::HorizontalTo(x))
    }

    pub fn vertical_to(self, y: Num) -> (r: Path)
        ensures
            r.id == self.id,
            r.d@ == self.d@.push(PathCommand::VerticalTo(y)),
            r.style == self.style,
    {
        self.add_command(PathCommand::VerticalTo(y))
    }

    pub fn curve_to(self, x1: Num, y1: Num, x2: Num, y2: Num, x: Num, y: Num) -> (r: Path)
        ensures
            r.id == self.id,
            r.d@ == self.d@.push(PathCommand::CurveTo(x1, y1, x2, y2, x, y)),
            r.style == self.style,
    {
        self.add_command(PathCommand::CurveTo(x1, y1, x2, y2, x, y))
    }

    pub fn smooth_curve_to(self, x2: Num, y2: Num, x: Num, y: Num) -> (r: Path)
        ensures
            r.id == self.id,
            r.d@ == self.d@.push(PathCommand::SmoothCurveTo(x2, y2, x, y)),
            r.style == self.style,
    {
        self.add_command(PathCommand::SmoothCurveTo(x2, y2, x, y))
    }

    pub fn quadratic_bezier_curve_to(self, x1: Num, y1: Num, x: Num, y: Num) -> (r: Path)
        ensures
            r.id == self.id,
            r.d@ == self.d@.push(PathCommand::QuadraticBezierCurveTo(x1, y1, x, y)),
            r.style == self.style,
    {
        self.add_command(PathCommand::QuadraticBezierCurveTo(x1, y1, x, y))
    }

    pub fn smooth_quadratic_bezier_curve_to(self, x: Num, y: Num) -> (r: Path)
        ensures
            r.id == self.id,
            r.d@ == self.d@.push(PathCommand::SmoothQuadraticBezierCurveTo(x, y)),
            r.style == self.style,
    {
        self.add_command(PathCommand::SmoothQuadraticBezierCurveTo(x, y))
    }

    pub fn elliptical_arc_to(
        self,
        rx: Num,
        ry: Num,
        x_axis_rotation: Num,
        large_arc_flag: bool,
        sweep_flag: bool,
        x: Num,
        y: Num,
    ) -> (r: Path)
        ensures
            r.id == self.id,
            r.d@ == self.d@.push(
                PathCommand::EllipticalArcTo(rx, ry, x_axis_rotation, large_arc_flag, sweep_flag, x, y),
            ),
            r.style == self.style,
    {
        self.add_command(
            PathCommand::EllipticalArcTo(rx, ry, x_axis_rotation, large_arc_flag, sweep_flag, x, y),
        )
    }

    pub fn close(self) -> (r: Path)
        ensures
            r.id == self.id,
            r.d@ == self.d@.push(PathCommand::Close),
            r.style == self.style,
    {
        self.add_command(PathCommand::Close)
    }
}

impl ToSvg for Path {
    open spec fn svg_text(&self) -> Seq<char> {
        path_text(*self)
    }

    fn to_svg(&self) -> (r: String) {
        let mut s = String::new();
        push_str(&mut s, "<path id=\"");
        push_string(&mut s, &self.id);
        push_str(&mut s, "\" d=\"");
        write_commands(&self.d, &mut s);
        push_str(&mut s, "\"");
        close_element(&self.style, &mut s);
        assert(s@ =~= path_text(*self));
        s
    }
}

} // verus!
