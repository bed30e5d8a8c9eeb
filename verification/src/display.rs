use crate::json::Json;
use crate::json::depth;
use crate::json::entries_depth;
use crate::json::items_depth;
use crate::json::lemma_entries_depth_bound;
use crate::json::lemma_items_depth_bound;
use vstd::prelude::*;

verus! {

/// The color role a piece of text is drawn in. The concrete palette is the
/// sink's choice; the renderer only distinguishes the roles, which spec-wise
/// keeps keys, string values, numbers and booleans visually distinct.
#[derive(Clone, Copy, Debug, PartialEq, Eq, Structural)]
pub enum TextColor {
    /// An object key.
    Key,
    /// A string value.
    Str,
    /// A number.
    Num,
    /// A boolean.
    Bool,
}

/// One draw command for the output sink. The renderer emits a sequence of
/// these; the sink plays them back in order. `Newline` is a line terminator
/// whose byte form is the sink's single policy choice (`\n`, or `\r\n` on a
/// raw-mode terminal, which needs the explicit carriage return).
#[derive(Debug, PartialEq)]
pub enum Cmd {
    /// Emit these characters verbatim.
    Text(String),
    /// Emit this many space characters (indentation).
    Spaces(usize),
    /// End the current line.
    Newline,
    /// Switch the foreground color to the given role's color.
    Fg(TextColor),
    /// Switch on the bold attribute.
    Bold,
    /// Restore the default foreground color.
    ResetFg,
    /// Restore the default text attributes.
    ResetStyle,
}

/// The mathematical shape of one draw command: `Cmd` with its text viewed as
/// a character sequence.
pub enum CmdV {
    Text(Seq<char>),
    Spaces(nat),
    Newline,
    Fg(TextColor),
    Bold,
    ResetFg,
    ResetStyle,
}

impl View for Cmd {
    type V = CmdV;

    open spec fn view(&self) -> CmdV {
        match self {
            Cmd::Text(s) => CmdV::Text(s@),
            Cmd::Spaces(n) => CmdV::Spaces(*n as nat),
            Cmd::Newline => CmdV::Newline,
            Cmd::Fg(c) => CmdV::Fg(*c),
            Cmd::Bold => CmdV::Bold,
            Cmd::ResetFg => CmdV::ResetFg,
            Cmd::ResetStyle => CmdV::ResetStyle,
        }
    }
}

/// The views of a command buffer, element by element.
pub open spec fn views(cs: Seq<Cmd>) -> Seq<CmdV> {
    cs.map_values(|c: Cmd| c@)
}

/// Commands for `null`: the bare literal in bold, attributes restored after.
pub open spec fn null_cmds() -> Seq<CmdV> {
    seq![CmdV::Bold, CmdV::Text("null"@), CmdV::ResetStyle]
}

/// Commands for a boolean: `true` or `false` in the boolean color.
pub open spec fn bool_cmds(b: bool) -> Seq<CmdV> {
    seq![
        CmdV::Fg(TextColor::Bool),
        CmdV::Text(if b { "true"@ } else { "false"@ }),
        CmdV::ResetFg,
    ]
}

/// Commands for a number: its stored textual form in the number color.
pub open spec fn num_cmds(s: Seq<char>) -> Seq<CmdV> {
    seq![CmdV::Fg(TextColor::Num), CmdV::Text(s), CmdV::ResetFg]
}

/// Commands for a string: the characters verbatim between two literal double
/// quotes, in the key color or the string-value color. Nothing is re-escaped:
/// an embedded quote or control character goes out as it is (a documented
/// limitation, kept because fixing it would change the round-trip behavior).
pub open spec fn string_cmds(s: Seq<char>, is_key: bool) -> Seq<CmdV> {
    seq![
        CmdV::Fg(if is_key { TextColor::Key } else { TextColor::Str }),
        CmdV::Text("\""@),
        CmdV::Text(s),
        CmdV::Text("\""@),
        CmdV::ResetFg,
    ]
}

/// The full command sequence for rendering `v` with the indentation cursor at
/// `ind` columns. Containers render `[`/`{`, a newline, each child indented
/// two columns deeper, then the closing bracket back at `ind` columns; empty
/// containers render inline as `[]`/`{}` with no newline.
pub open spec fn cmds_of(v: Json, ind: nat) -> Seq<CmdV>
    decreases v, 1int, 0int,
{
    match v {
        Json::Null => null_cmds(),
        Json::Bool(b) => bool_cmds(b),
        Json::Num(s) => num_cmds(s@),
        Json::Str(s) => string_cmds(s@, false),
        Json::Arr(a) => if a@.len() == 0 {
            seq![CmdV::Text("[]"@)]
        } else {
            seq![CmdV::Text("["@), CmdV::Newline] + arr_cmds(a@, 0, ind + 2) + seq![
                CmdV::Spaces(ind),
                CmdV::Text("]"@),
            ]
        },
        Json::Obj(o) => if o@.len() == 0 {
            seq![CmdV::Text("{}"@)]
        } else {
            seq![CmdV::Text("{"@), CmdV::Newline] + obj_cmds(o@, 0, ind + 2) + seq![
                CmdV::Spaces(ind),
                CmdV::Text("}"@),
            ]
        },
    }
}

/// Commands for the array elements `s[i..]`, one line each: the indentation,
/// the element, a comma unless it is the last element overall, a newline.
pub open spec fn arr_cmds(s: Seq<Json>, i: int, ind: nat) -> Seq<CmdV>
    decreases s, 0int, s.len() - i,
{
    if i < 0 || i >= s.len() {
        Seq::<CmdV>::empty()
    } else {
        seq![CmdV::Spaces(ind)] + cmds_of(s[i], ind) + (if i + 1 < s.len() {
            seq![CmdV::Text(","@)]
        } else {
            Seq::<CmdV>::empty()
        }) + seq![CmdV::Newline] + arr_cmds(s, i + 1, ind)
    }
}

/// Commands for the object entries `s[i..]`, one line each: the indentation,
/// the colored key, `: `, the value, a comma unless it is the last entry
/// overall, a newline. Entries keep their stored (insertion) order.
pub open spec fn obj_cmds(s: Seq<(String, Json)>, i: int, ind: nat) -> Seq<CmdV>
    decreases s, 0int, s.len() - i,
{
    if i < 0 || i >= s.len() {
        Seq::<CmdV>::empty()
    } else {
        seq![CmdV::Spaces(ind)] + string_cmds(s[i].0@, true) + seq![CmdV::Text(": "@)] + cmds_of(
            s[i].1,
            ind,
        ) + (if i + 1 < s.len() {
            seq![CmdV::Text(","@)]
        } else {
            Seq::<CmdV>::empty()
        }) + seq![CmdV::Newline] + obj_cmds(s, i + 1, ind)
    }
}

/// The renderer: a command buffer standing for the output sink, and the
/// indentation cursor in columns. The cursor grows by two on entering a
/// non-empty container and shrinks by two on leaving it, so it returns to its
/// entry value after every render call.
pub struct DisplayConfig {
    /// The draw commands produced so far, in output order.
    pub out: Vec<Cmd>,
    /// The current indentation depth in columns.
    pub indent: usize,
}

impl DisplayConfig {
    /// A fresh renderer: empty output, cursor at column 0.
    pub fn new() -> (r: DisplayConfig)
        ensures
            r.out@.len() == 0,
            r.indent == 0,
    {
        DisplayConfig { out: Vec::new(), indent: 0 }
    }

    /// Append one command to the output.
    fn emit(&mut self, c: Cmd)
        ensures
            final(self).indent == old(self).indent,
            views(final(self).out@) == views(old(self).out@).push(c@),
    {
        let ghost pre = self.out@;
        let ghost cv = c@;
        self.out.push(c);
        proof {
            assert(views(self.out@) =~= views(pre).push(cv));
        }
    }

    /// Render `null`.
    pub fn print_null(&mut self)
        ensures
            final(self).indent == old(self).indent,
            views(final(self).out@) == views(old(self).out@) + null_cmds(),
    {
        self.emit(Cmd::Bold);
        self.emit(Cmd::Text("null".to_owned()));
        self.emit(Cmd::ResetStyle);
        proof {
            assert(views(self.out@) =~= views(old(self).out@) + null_cmds());
        }
    }

    /// Render a boolean.
    pub fn print_bool(&mut self, b: bool)
        ensures
            final(self).indent == old(self).indent,
            views(final(self).out@) == views(old(self).out@) + bool_cmds(b),
    {
        self.emit(Cmd::Fg(TextColor::Bool));
        if b {
            self.emit(Cmd::Text("true".to_owned()));
        } else {
            self.emit(Cmd::Text("false".to_owned()));
        }
        self.emit(Cmd::ResetFg);
        proof {
            assert(views(self.out@) =~= views(old(self).out@) + bool_cmds(b));
        }
    }

    /// Render a number from its stored textual form.
    pub fn print_number(&mut self, val: &str)
        ensures
            final(self).indent == old(self).indent,
            views(final(self).out@) == views(old(self).out@) + num_cmds(val@),
    {
        self.emit(Cmd::Fg(TextColor::Num));
        self.emit(Cmd::Text(val.to_owned()));
        self.emit(Cmd::ResetFg);
        proof {
            assert(views(self.out@) =~= views(old(self).out@) + num_cmds(val@));
        }
    }

    /// Render `val` at the current cursor: append exactly
    /// `cmds_of(val, indent)` to the output. The indentation cursor returns
    /// to its entry value (push/pop symmetry), whatever the nesting. The
    /// `requires` is the machine limit that keeps the cursor within `usize`
    /// on the deepest nesting level of `val`.
    pub fn print_json(&mut self, val: &Json)
        requires
            old(self).indent + 2 * depth(*val) <= usize::MAX,
        ensures
            final(self).indent == old(self).indent,
            views(final(self).out@) == views(old(self).out@) + cmds_of(
                *val,
                old(self).indent as nat,
            ),
        decreases *val,
    {
        let ghost base0 = views(self.out@);
        let ghost ind0 = self.indent as nat;
        match val {
            Json::Null => {
                self.print_null();
            },
            Json::Bool(b) => {
                self.print_bool(*b);
            },
            Json::Num(s) => {
                self.print_number(s.as_str());
            },
            Json::Str(s) => {
                self.print_string(s.as_str(), false);
            },
            Json::Arr(a) => {
                if a.len() == 0 {
                    self.emit(Cmd::Text("[]".to_owned()));
                    proof {
                        assert(views(self.out@) =~= base0 + cmds_of(*val, ind0));
                    }
                } else {
                    self.emit(Cmd::Text("[".to_owned()));
                    self.emit(Cmd::Newline);
                    proof {
                        assert(depth(*val) == 1 + items_depth(a@, 0));
                    }
                    self.indent = self.indent + 2;
                    let ghost ind2 = self.indent as nat;
                    let ghost base = views(self.out@);
                    let mut i: usize = 0;
                    while i < a.len()
                        invariant
                            i <= a.len(),
                            a@.len() > 0,
                            *val is Arr,
                            a@ == val->Arr_0@,
                            self.indent == ind2,
                            ind2 == ind0 + 2,
                            ind0 + 2 * depth(*val) <= usize::MAX,
                            depth(*val) == 1 + items_depth(a@, 0),
                            views(self.out@) + arr_cmds(a@, i as int, ind2) == base + arr_cmds(
                                a@,
                                0,
                                ind2,
                            ),
                        decreases a.len() - i,
                    {
                        proof {
                            lemma_items_depth_bound(a@, 0, i as int);
                        }
                        let ghost before = views(self.out@);
                        self.emit(Cmd::Spaces(self.indent));
                        proof {
                            assert(decreases_to!(*val => val->Arr_0));
                            assert(decreases_to!(val->Arr_0 => (val->Arr_0)@));
                            assert(decreases_to!((val->Arr_0)@ => (val->Arr_0)@[i as int]));
                            assert(a@[i as int] == (val->Arr_0)@[i as int]);
                            assert(decreases_to!(*val => a@[i as int]));
                        }
                        self.print_json(&a[i]);
                        if i + 1 < a.len() {
                            self.emit(Cmd::Text(",".to_owned()));
                        }
                        self.emit(Cmd::Newline);
                        proof {
                            assert(views(self.out@) =~= before + (seq![CmdV::Spaces(ind2)]
                                + cmds_of(a@[i as int], ind2) + (if i + 1 < a@.len() {
                                seq![CmdV::Text(","@)]
                            } else {
                                Seq::<CmdV>::empty()
                            }) + seq![CmdV::Newline]));
                            assert(views(self.out@) + arr_cmds(a@, i as int + 1, ind2) =~= base
                                + arr_cmds(a@, 0, ind2));
                        }
                        i = i + 1;
                    }
                    self.indent = self.indent - 2;
                    self.emit(Cmd::Spaces(self.indent));
                    self.emit(Cmd::Text("]".to_owned()));
                    proof {
                        assert(views(self.out@) =~= base0 + cmds_of(*val, ind0));
                    }
                }
            },
            Json::Obj(o) => {
                if o.len() == 0 {
                    self.emit(Cmd::Text("{}".to_owned()));
                    proof {
                        assert(views(self.out@) =~= base0 + cmds_of(*val, ind0));
                    }
                } else {
                    self.emit(Cmd::Text("{".to_owned()));
                    self.emit(Cmd::Newline);
                    proof {
                        assert(depth(*val) == 1 + entries_depth(o@, 0));
                    }
                    self.indent = self.indent + 2;
                    let ghost ind2 = self.indent as nat;
                    let ghost base = views(self.out@);
                    let mut i: usize = 0;
                    while i < o.len()
                        invariant
                            i <= o.len(),
                            o@.len() > 0,
                            *val is Obj,
                            o@ == val->Obj_0@,
                            self.indent == ind2,
                            ind2 == ind0 + 2,
                            ind0 + 2 * depth(*val) <= usize::MAX,
                            depth(*val) == 1 + entries_depth(o@, 0),
                            views(self.out@) + obj_cmds(o@, i as int, ind2) == base + obj_cmds(
                                o@,
                                0,
                                ind2,
                            ),
                        decreases o.len() - i,
                    {
                        proof {
                            lemma_entries_depth_bound(o@, 0, i as int);
                        }
                        let ghost before = views(self.out@);
                        let pair = &o[i];
                        self.emit(Cmd::Spaces(self.indent));
                        self.print_string(pair.0.as_str(), true);
                        self.emit(Cmd::Text(": ".to_owned()));
                        proof {
                            assert(decreases_to!(*val => val->Obj_0));
                            assert(decreases_to!(val->Obj_0 => (val->Obj_0)@));
                            assert(decreases_to!((val->Obj_0)@ => (val->Obj_0)@[i as int]));
                            assert(o@[i as int] == (val->Obj_0)@[i as int]);
                            assert(decreases_to!(o@[i as int] => o@[i as int].1));
                            assert(decreases_to!(*val => o@[i as int].1));
                        }
                        self.print_json(&pair.1);
                        if i + 1 < o.len() {
                            self.emit(Cmd::Text(",".to_owned()));
                        }
                        self.emit(Cmd::Newline);
                        proof {
                            assert(views(self.out@) =~= before + (seq![CmdV::Spaces(ind2)]
                                + string_cmds(o@[i as int].0@, true) + seq![CmdV::Text(": "@)]
                                + cmds_of(o@[i as int].1, ind2) + (if i + 1 < o@.len() {
                                seq![CmdV::Text(","@)]
                            } else {
                                Seq::<CmdV>::empty()
                            }) + seq![CmdV::Newline]));
                            assert(views(self.out@) + obj_cmds(o@, i as int + 1, ind2) =~= base
                                + obj_cmds(o@, 0, ind2));
                        }
                        i = i + 1;
                    }
                    self.indent = self.indent - 2;
                    self.emit(Cmd::Spaces(self.indent));
                    self.emit(Cmd::Text("}".to_owned()));
                    proof {
                        assert(views(self.out@) =~= base0 + cmds_of(*val, ind0));
                    }
                }
            },
        }
    }

    /// Render a string in quotes, colored as a key or as a value. The
    /// characters go out verbatim; nothing is re-escaped.
    pub fn print_string(&mut self, val: &str, is_key: bool)
        ensures
            final(self).indent == old(self).indent,
            views(final(self).out@) == views(old(self).out@) + string_cmds(val@, is_key),
    {
        if is_key {
            self.emit(Cmd::Fg(TextColor::Key));
        } else {
            self.emit(Cmd::Fg(TextColor::Str));
        }
        self.emit(Cmd::Text("\"".to_owned()));
        self.emit(Cmd::Text(val.to_owned()));
        self.emit(Cmd::Text("\"".to_owned()));
        self.emit(Cmd::ResetFg);
        proof {
            assert(views(self.out@) =~= views(old(self).out@) + string_cmds(val@, is_key));
        }
    }
}

/// `c` with its indentation run widened by `n` columns; any other command
/// is unchanged.
pub open spec fn shift_cmd(c: CmdV, n: nat) -> CmdV {
    match c {
        CmdV::Spaces(m) => CmdV::Spaces(m + n),
        _ => c,
    }
}

/// The commands `cs` with every indentation run widened by `n` columns.
pub open spec fn shift_cmds(cs: Seq<CmdV>, n: nat) -> Seq<CmdV> {
    cs.map_values(|c: CmdV| shift_cmd(c, n))
}

/// Indentation accumulates additively: rendering with the cursor at
/// `ind + n` produces the rendering at `ind` with every indentation run
/// widened by `n` columns, and nothing else changed. Since a container lays
/// its children out at `ind + 2`, the elements of a nested container are
/// indented exactly two columns deeper than the elements of the container
/// around it, at every depth.
pub proof fn lemma_indent_additive(v: Json, ind: nat, n: nat)
    ensures
        cmds_of(v, ind + n) == shift_cmds(cmds_of(v, ind), n),
    decreases v, 1int, 0int,
{
    match v {
        Json::Arr(a) => {
            if a@.len() == 0 {
                assert(cmds_of(v, ind + n) =~= shift_cmds(cmds_of(v, ind), n));
            } else {
                lemma_arr_cmds_shift(a@, 0, ind + 2, n);
                assert(ind + n + 2 == (ind + 2) + n);
                assert(cmds_of(v, ind + n) =~= shift_cmds(cmds_of(v, ind), n));
            }
        },
        Json::Obj(o) => {
            if o@.len() == 0 {
                assert(cmds_of(v, ind + n) =~= shift_cmds(cmds_of(v, ind), n));
            } else {
                lemma_obj_cmds_shift(o@, 0, ind + 2, n);
                assert(ind + n + 2 == (ind + 2) + n);
                assert(cmds_of(v, ind + n) =~= shift_cmds(cmds_of(v, ind), n));
            }
        },
        _ => {
            assert(cmds_of(v, ind + n) =~= shift_cmds(cmds_of(v, ind), n));
        },
    }
}

/// The additivity law for the element lines of an array.
proof fn lemma_arr_cmds_shift(s: Seq<Json>, i: int, ind: nat, n: nat)
    ensures
        arr_cmds(s, i, ind + n) == shift_cmds(arr_cmds(s, i, ind), n),
    decreases s, 0int, s.len() - i,
{
    if i < 0 || i >= s.len() {
        assert(arr_cmds(s, i, ind + n) =~= shift_cmds(arr_cmds(s, i, ind), n));
    } else {
        lemma_indent_additive(s[i], ind, n);
        lemma_arr_cmds_shift(s, i + 1, ind, n);
        assert(arr_cmds(s, i, ind + n) =~= shift_cmds(arr_cmds(s, i, ind), n));
    }
}

/// The additivity law for the entry lines of an object.
proof fn lemma_obj_cmds_shift(s: Seq<(String, Json)>, i: int, ind: nat, n: nat)
    ensures
        obj_cmds(s, i, ind + n) == shift_cmds(obj_cmds(s, i, ind), n),
    decreases s, 0int, s.len() - i,
{
    if i < 0 || i >= s.len() {
        assert(obj_cmds(s, i, ind + n) =~= shift_cmds(obj_cmds(s, i, ind), n));
    } else {
        lemma_indent_additive(s[i].1, ind, n);
        lemma_obj_cmds_shift(s, i + 1, ind, n);
        assert(obj_cmds(s, i, ind + n) =~= shift_cmds(obj_cmds(s, i, ind), n));
    }
}

/// Lay out a whole document: exactly the commands of `val` rendered from
/// column 0. The `requires` is the machine limit that keeps the indentation
/// cursor within `usize` on the deepest nesting level of `val`.
pub fn render(val: &Json) -> (r: Vec<Cmd>)
    requires
        2 * depth(*val) <= usize::MAX,
    ensures
        views(r@) == cmds_of(*val, 0),
{
    let mut d = DisplayConfig::new();
    d.print_json(val);
    proof {
        assert(views(d.out@) =~= cmds_of(*val, 0));
    }
    d.out
}

} // verus!
