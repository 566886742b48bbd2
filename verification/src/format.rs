//! Rendering a template and its arguments into bytes.
//!
//! A template is text with holes. `{}` stands for the next argument that has
//! no name, `{name}` for the argument of that name; `:?` before the closing
//! brace asks for the debug form. `{{` and `}}` stand for one brace each.
//! Everything else is copied as it is.

use crate::float::{float_debug_text, float_display_text, Float, FloatModel};
use crate::number::{int_text, push_i64};
use crate::text::push_str;
use vstd::prelude::*;
use vstd::slice::slice_subrange;
use vstd::string::StringSliceAdditionalSpecFns;
use vstd::utf8::encode_utf8;

verus! {

/// The byte `{`.
pub const OPEN: u8 = 123;

/// The byte `}`.
pub const CLOSE: u8 = 125;

/// The byte `:`.
pub const COLON: u8 = 58;

/// The byte `?`.
pub const QUERY: u8 = 63;

/// How a hole wants its argument shown.
#[derive(Debug, Clone, Copy, PartialEq, Eq, Structural)]
pub enum Style {
    /// For a reader: `{}`.
    Display,
    /// For a developer: `{:?}`.
    Debug,
}

/// Why a template could not be rendered with the arguments given.
#[derive(Debug, Clone, Copy, PartialEq, Eq, Structural)]
pub enum FormatError {
    /// A `{` opens a hole that no `}` closes.
    UnclosedHole,
    /// A single `}` stands outside any hole.
    StrayClose,
    /// What follows the `:` in a hole is neither empty nor `?`.
    UnknownSpec,
    /// A `{}` finds no unnamed argument left.
    MissingArgument,
    /// A `{name}` finds no argument of that name.
    UnknownName,
    /// The argument has no text in the style asked for: text has no debug
    /// form here, a list no other.
    NoSuchForm,
}

/// What a reader is told of an error.
pub open spec fn error_text(e: FormatError) -> Seq<u8> {
    match e {
        FormatError::UnclosedHole => "template has a `{` without a `}`".spec_bytes(),
        FormatError::StrayClose => "template has a `}` without a `{`".spec_bytes(),
        FormatError::UnknownSpec => "template asks for an unknown style".spec_bytes(),
        FormatError::MissingArgument => "template has more holes than arguments".spec_bytes(),
        FormatError::UnknownName => "template names an argument that is not there".spec_bytes(),
        FormatError::NoSuchForm => "argument has no text in the style asked for".spec_bytes(),
    }
}

impl FormatError {
    /// What a reader is told of the error.
    pub fn describe(&self) -> (text: &'static str)
        ensures
            text.spec_bytes() == error_text(*self),
    {
        match self {
            FormatError::UnclosedHole => "template has a `{` without a `}`",
            FormatError::StrayClose => "template has a `}` without a `{`",
            FormatError::UnknownSpec => "template asks for an unknown style",
            FormatError::MissingArgument => "template has more holes than arguments",
            FormatError::UnknownName => "template names an argument that is not there",
            FormatError::NoSuchForm => "argument has no text in the style asked for",
        }
    }
}

/// A number, as the renderer sees it.
pub enum NumberModel {
    Int(int),
    Float(FloatModel),
}

/// A value, as the renderer sees it.
pub enum ValueModel {
    Number(NumberModel),
    /// Text, by its UTF-8 bytes.
    Text(Seq<u8>),
    List(Seq<NumberModel>),
}

/// An argument, as the renderer sees it.
pub struct ArgModel {
    /// The UTF-8 bytes of the name, if it has one.
    pub name: Option<Seq<u8>>,
    pub value: ValueModel,
}

/// The text of a number in a style. An integer reads the same in both.
pub open spec fn number_text(n: NumberModel, style: Style) -> Seq<u8> {
    match n {
        NumberModel::Int(i) => int_text(i),
        NumberModel::Float(f) => match style {
            Style::Display => float_display_text(f),
            Style::Debug => float_debug_text(f),
        },
    }
}

/// The debug forms of `items`, with a comma and a space between neighbours.
pub open spec fn joined_text(items: Seq<NumberModel>) -> Seq<u8>
    decreases items.len(),
{
    if items.len() == 0 {
        Seq::empty()
    } else if items.len() == 1 {
        number_text(items[0], Style::Debug)
    } else {
        joined_text(items.drop_last()) + seq![44u8, 32u8] + number_text(
            items.last(),
            Style::Debug,
        )
    }
}

/// The debug form of a list: its items between square brackets.
pub open spec fn list_text(items: Seq<NumberModel>) -> Seq<u8> {
    seq![91u8] + joined_text(items) + seq![93u8]
}

/// The text of a value in a style, where it has one.
pub open spec fn value_text(v: ValueModel, style: Style) -> Option<Seq<u8>> {
    match v {
        ValueModel::Number(n) => Some(number_text(n, style)),
        ValueModel::Text(t) => match style {
            Style::Display => Some(t),
            Style::Debug => None,
        },
        ValueModel::List(items) => match style {
            Style::Display => None,
            Style::Debug => Some(list_text(items)),
        },
    }
}

/// How many bytes of `s` from `from` on come before the first `b`; where
/// there is no `b`, all that are left.
pub open spec fn gap(s: Seq<u8>, from: int, b: u8) -> nat
    decreases s.len() - from,
{
    if from < 0 || from >= s.len() || s[from] == b {
        0
    } else {
        1 + gap(s, from + 1, b)
    }
}

/// The index of the first argument from `from` on that has no name; the
/// number of arguments where there is none.
pub open spec fn next_unnamed(args: Seq<ArgModel>, from: int) -> int
    decreases args.len() - from,
{
    if from < 0 || from >= args.len() {
        args.len() as int
    } else if args[from].name is None {
        from
    } else {
        next_unnamed(args, from + 1)
    }
}

/// The index of the first argument from `from` on that is called `name`; the
/// number of arguments where there is none.
pub open spec fn find_named(args: Seq<ArgModel>, name: Seq<u8>, from: int) -> int
    decreases args.len() - from,
{
    if from < 0 || from >= args.len() {
        args.len() as int
    } else if args[from].name == Some(name) {
        from
    } else {
        find_named(args, name, from + 1)
    }
}

/// The style that the part of a hole after its `:` asks for.
pub open spec fn style_of(spec: Seq<u8>) -> Option<Style> {
    if spec.len() == 0 {
        Some(Style::Display)
    } else if spec == seq![QUERY] {
        Some(Style::Debug)
    } else {
        None
    }
}

/// What the hole with `inner` between its braces puts out, and the index from
/// which the next `{}` looks for its argument.
///
/// The part of `inner` before the first `:` is the name; what follows the `:`
/// is the style.
pub open spec fn fill_hole(inner: Seq<u8>, args: Seq<ArgModel>, cursor: int) -> Result<
    (Seq<u8>, int),
    FormatError,
> {
    let colon = gap(inner, 0, COLON) as int;
    let name = inner.subrange(0, colon);
    let spec = if colon < inner.len() {
        inner.subrange(colon + 1, inner.len() as int)
    } else {
        Seq::empty()
    };
    match style_of(spec) {
        None => Err(FormatError::UnknownSpec),
        Some(style) => {
            let at = if name.len() == 0 {
                next_unnamed(args, cursor)
            } else {
                find_named(args, name, 0)
            };
            if at >= args.len() {
                if name.len() == 0 {
                    Err(FormatError::MissingArgument)
                } else {
                    Err(FormatError::UnknownName)
                }
            } else {
                match value_text(args[at].value, style) {
                    None => Err(FormatError::NoSuchForm),
                    Some(text) => Ok(
                        (
                            text,
                            if name.len() == 0 {
                                at + 1
                            } else {
                                cursor
                            },
                        ),
                    ),
                }
            }
        },
    }
}

/// `head` before what `rest` rendered, or the error of `rest`.
pub open spec fn after(head: Seq<u8>, rest: Result<Seq<u8>, FormatError>) -> Result<
    Seq<u8>,
    FormatError,
> {
    match rest {
        Ok(tail) => Ok(head + tail),
        Err(e) => Err(e),
    }
}

/// What the template renders to from byte `pos` on, where the next `{}` looks
/// for its argument from index `cursor`. The error is that of the first place,
/// from the left, that cannot be rendered.
pub open spec fn render_from(t: Seq<u8>, args: Seq<ArgModel>, pos: int, cursor: int) -> Result<
    Seq<u8>,
    FormatError,
>
    decreases t.len() - pos,
{
    if pos < 0 || pos >= t.len() {
        Ok(Seq::empty())
    } else if t[pos] == OPEN {
        if pos + 1 < t.len() && t[pos + 1] == OPEN {
            after(seq![OPEN], render_from(t, args, pos + 2, cursor))
        } else {
            let close = pos + 1 + gap(t, pos + 1, CLOSE);
            if close >= t.len() {
                Err(FormatError::UnclosedHole)
            } else {
                match fill_hole(t.subrange(pos + 1, close), args, cursor) {
                    Err(e) => Err(e),
                    Ok((text, next)) => after(text, render_from(t, args, close + 1, next)),
                }
            }
        }
    } else if t[pos] == CLOSE {
        if pos + 1 < t.len() && t[pos + 1] == CLOSE {
            after(seq![CLOSE], render_from(t, args, pos + 2, cursor))
        } else {
            Err(FormatError::StrayClose)
        }
    } else {
        after(seq![t[pos]], render_from(t, args, pos + 1, cursor))
    }
}

/// What the template `t` renders to with `args`.
pub open spec fn rendered(t: Seq<u8>, args: Seq<ArgModel>) -> Result<Seq<u8>, FormatError> {
    render_from(t, args, 0, 0)
}

/// What the template renders to when a newline is to end it: the same text
/// and then exactly one newline.
pub open spec fn rendered_line(t: Seq<u8>, args: Seq<ArgModel>) -> Result<
    Seq<u8>,
    FormatError,
> {
    match rendered(t, args) {
        Ok(text) => Ok(text.push(10u8)),
        Err(e) => Err(e),
    }
}

/// A number among the arguments.
pub enum Number {
    Int(i64),
    Float(Float),
}

impl View for Number {
    type V = NumberModel;

    open spec fn view(&self) -> NumberModel {
        match self {
            Number::Int(i) => NumberModel::Int(*i as int),
            Number::Float(f) => NumberModel::Float(f@),
        }
    }
}

/// The models of a run of numbers.
pub open spec fn number_models(items: Seq<Number>) -> Seq<NumberModel> {
    Seq::new(items.len(), |i: int| items[i]@)
}

/// A value among the arguments.
pub enum Value {
    Number(Number),
    Text(String),
    List(Vec<Number>),
}

impl View for Value {
    type V = ValueModel;

    open spec fn view(&self) -> ValueModel {
        match self {
            Value::Number(n) => ValueModel::Number(n@),
            Value::Text(s) => ValueModel::Text(encode_utf8(s@)),
            Value::List(items) => ValueModel::List(number_models(items@)),
        }
    }
}

/// One argument of a template: a value, and the name by which a hole may ask
/// for it.
pub struct Arg {
    pub name: Option<String>,
    pub value: Value,
}

impl View for Arg {
    type V = ArgModel;

    open spec fn view(&self) -> ArgModel {
        ArgModel {
            name: match self.name {
                Some(n) => Some(encode_utf8(n@)),
                None => None,
            },
            value: self.value@,
        }
    }
}

/// The models of a run of arguments.
pub open spec fn arg_models(args: Seq<Arg>) -> Seq<ArgModel> {
    Seq::new(args.len(), |i: int| args[i]@)
}

impl Arg {
    /// An argument without a name, for the next `{}`.
    pub fn positional(value: Value) -> (arg: Arg)
        ensures
            arg@ == (ArgModel { name: None, value: value@ }),
    {
        Arg { name: None, value }
    }

    /// An argument for the holes that ask for `name`.
    pub fn named(name: String, value: Value) -> (arg: Arg)
        ensures
            arg@ == (ArgModel { name: Some(encode_utf8(name@)), value: value@ }),
    {
        Arg { name: Some(name), value }
    }
}

impl Number {
    /// Appends the text of the number in `style` to `out`.
    pub fn push_text(&self, out: &mut Vec<u8>, style: Style)
        ensures
            final(out)@ == old(out)@ + number_text(self@, style),
    {
        match self {
            Number::Int(i) => push_i64(out, *i),
            Number::Float(f) => match style {
                Style::Display => f.push_display(out),
                Style::Debug => f.push_debug(out),
            },
        }
    }
}

/// Appends the debug form of a list of numbers to `out`.
pub fn push_list(out: &mut Vec<u8>, items: &Vec<Number>)
    ensures
        final(out)@ == old(out)@ + list_text(number_models(items@)),
{
    let ghost models = number_models(items@);
    out.push(91);
    let ghost opened = out@;
    let mut i: usize = 0;
    while i < items.len()
        invariant
            i <= items.len(),
            models == number_models(items@),
            out@ == opened + joined_text(models.subrange(0, i as int)),
        decreases items.len() - i,
    {
        let ghost before = models.subrange(0, i as int);
        let ghost now = models.subrange(0, i + 1);
        if i > 0 {
            out.push(44);
            out.push(32);
        }
        items[i].push_text(out, Style::Debug);
        proof {
            assert(now.drop_last() == before);
            assert(now.last() == items@[i as int]@);
            if i == 0 {
                assert(before.len() == 0);
                assert(now[0] == items@[0]@);
            } else {
                assert(out@ == opened + (joined_text(before) + seq![44u8, 32u8] + number_text(
                    now.last(),
                    Style::Debug,
                )));
            }
        }
        i = i + 1;
    }
    assert(models.subrange(0, items.len() as int) == models);
    out.push(93);
    assert(out@ == old(out)@ + (seq![91u8] + joined_text(models) + seq![93u8]));
}

impl Value {
    /// Appends the text of the value in `style` to `out`; `false`, with `out`
    /// as it was, where the value has no text in that style.
    pub fn push_text(&self, out: &mut Vec<u8>, style: Style) -> (done: bool)
        ensures
            done == (value_text(self@, style) is Some),
            done ==> final(out)@ == old(out)@ + value_text(self@, style)->Some_0,
            !done ==> final(out)@ == old(out)@,
    {
        match self {
            Value::Number(n) => {
                n.push_text(out, style);
                true
            },
            Value::Text(s) => match style {
                Style::Display => {
                    push_str(out, s.as_str());
                    true
                },
                Style::Debug => false,
            },
            Value::List(items) => match style {
                Style::Display => false,
                Style::Debug => {
                    push_list(out, items);
                    true
                },
            },
        }
    }
}

/// The index of the first `b` in `s` from `from` on, or the length of `s`.
fn find_byte(s: &[u8], from: usize, b: u8) -> (at: usize)
    requires
        from <= s@.len(),
    ensures
        at == from + gap(s@, from as int, b),
        from <= at <= s@.len(),
{
    let mut at: usize = from;
    while at < s.len() && s[at] != b
        invariant
            from <= at <= s@.len(),
            from + gap(s@, from as int, b) == at + gap(s@, at as int, b),
        decreases s@.len() - at,
    {
        at = at + 1;
    }
    at
}

/// Whether two runs of bytes are the same.
fn same_bytes(a: &[u8], b: &[u8]) -> (same: bool)
    ensures
        same == (a@ == b@),
{
    if a.len() != b.len() {
        return false;
    }
    let mut i: usize = 0;
    while i < a.len()
        invariant
            i <= a@.len(),
            a@.len() == b@.len(),
            a@.subrange(0, i as int) == b@.subrange(0, i as int),
        decreases a@.len() - i,
    {
        if a[i] != b[i] {
            return false;
        }
        assert(a@.subrange(0, i + 1) == a@.subrange(0, i as int).push(a@[i as int]));
        assert(b@.subrange(0, i + 1) == b@.subrange(0, i as int).push(b@[i as int]));
        i = i + 1;
    }
    assert(a@.subrange(0, a@.len() as int) == a@);
    assert(b@.subrange(0, b@.len() as int) == b@);
    true
}

/// The index of the first argument from `from` on without a name.
fn seek_unnamed(args: &Vec<Arg>, from: usize) -> (at: usize)
    ensures
        at == next_unnamed(arg_models(args@), from as int),
        at <= args.len(),
{
    let mut at: usize = from;
    while at < args.len() && args[at].name.is_some()
        invariant
            from <= at,
            next_unnamed(arg_models(args@), from as int) == next_unnamed(
                arg_models(args@),
                at as int,
            ),
        decreases args.len() - at,
    {
        at = at + 1;
    }
    if at > args.len() {
        args.len()
    } else {
        at
    }
}

/// The index of the first argument called `name`.
fn seek_named(args: &Vec<Arg>, name: &[u8]) -> (at: usize)
    ensures
        at == find_named(arg_models(args@), name@, 0),
        at <= args.len(),
{
    let mut at: usize = 0;
    while at < args.len()
        invariant
            at <= args.len(),
            find_named(arg_models(args@), name@, 0) == find_named(
                arg_models(args@),
                name@,
                at as int,
            ),
        decreases args.len() - at,
    {
        let hit: bool = match &args[at].name {
            Some(n) => same_bytes(n.as_str().as_bytes(), name),
            None => false,
        };
        if hit {
            return at;
        }
        at = at + 1;
    }
    at
}

/// The style that the part of a hole after its `:` asks for.
fn read_style(spec: &[u8]) -> (style: Option<Style>)
    ensures
        style == style_of(spec@),
{
    if spec.len() == 0 {
        Some(Style::Display)
    } else if spec.len() == 1 && spec[0] == QUERY {
        assert(spec@ == seq![QUERY]);
        Some(Style::Debug)
    } else {
        assert(spec@ != seq![QUERY]) by {
            if spec@.len() == 1 {
                assert(spec@[0] != seq![QUERY][0]);
            }
        }
        None
    }
}

/// Appends to `out` what the hole with `inner` between its braces stands for,
/// and returns where the next `{}` looks for its argument. On an error `out`
/// is as it was.
fn push_hole(out: &mut Vec<u8>, inner: &[u8], args: &Vec<Arg>, cursor: usize) -> (r: Result<
    usize,
    FormatError,
>)
    ensures
        match r {
            Ok(next) => fill_hole(inner@, arg_models(args@), cursor as int) == Ok::<
                (Seq<u8>, int),
                FormatError,
            >((final(out)@.skip(old(out)@.len() as int), next as int)) && final(out)@
                == old(out)@ + final(out)@.skip(old(out)@.len() as int),
            Err(e) => fill_hole(inner@, arg_models(args@), cursor as int) == Err::<
                (Seq<u8>, int),
                FormatError,
            >(e) && final(out)@ == old(out)@,
        },
{
    let colon: usize = find_byte(inner, 0, COLON);
    let name: &[u8] = slice_subrange(inner, 0, colon);
    let style: Option<Style> = if colon < inner.len() {
        read_style(slice_subrange(inner, colon + 1, inner.len()))
    } else {
        assert(style_of(Seq::<u8>::empty()) == Some(Style::Display));
        Some(Style::Display)
    };
    match style {
        None => Err(FormatError::UnknownSpec),
        Some(style) => {
            let unnamed: bool = name.len() == 0;
            let at: usize = if unnamed {
                seek_unnamed(args, cursor)
            } else {
                seek_named(args, name)
            };
            if at >= args.len() {
                if unnamed {
                    Err(FormatError::MissingArgument)
                } else {
                    Err(FormatError::UnknownName)
                }
            } else {
                assert(arg_models(args@)[at as int].value == args@[at as int].value@);
                if args[at].value.push_text(out, style) {
                    let ghost text = value_text(args@[at as int].value@, style)->Some_0;
                    assert(out@.skip(old(out)@.len() as int) == text);
                    if unnamed {
                        Ok(at + 1)
                    } else {
                        Ok(cursor)
                    }
                } else {
                    Err(FormatError::NoSuchForm)
                }
            }
        },
    }
}

/// Putting `a` and then `b` before a rendering is putting `a + b` before it.
proof fn lemma_after_after(a: Seq<u8>, b: Seq<u8>, rest: Result<Seq<u8>, FormatError>)
    ensures
        after(a, after(b, rest)) == after(a + b, rest),
{
    if let Ok(tail) = rest {
        assert(a + (b + tail) == (a + b) + tail);
    }
}

/// Appends to `out` what the template renders to with `args`. On an error
/// `out` may hold the text of the part before the place of the error.
fn push_rendered(out: &mut Vec<u8>, t: &[u8], args: &Vec<Arg>) -> (r: Result<(), FormatError>)
    ensures
        match r {
            Ok(()) => rendered(t@, arg_models(args@)) == Ok::<Seq<u8>, FormatError>(
                final(out)@.skip(old(out)@.len() as int),
            ) && final(out)@ == old(out)@ + final(out)@.skip(old(out)@.len() as int),
            Err(e) => rendered(t@, arg_models(args@)) == Err::<Seq<u8>, FormatError>(e),
        },
{
    let ghost models = arg_models(args@);
    let ghost start = old(out)@.len() as int;
    let ghost base = old(out)@;
    let mut pos: usize = 0;
    let mut cursor: usize = 0;
    assert(out@.skip(start) == Seq::<u8>::empty());
    assert(after(Seq::<u8>::empty(), render_from(t@, models, 0, 0)) == render_from(
        t@,
        models,
        0,
        0,
    )) by {
        if let Ok(tail) = render_from(t@, models, 0, 0) {
            assert(Seq::<u8>::empty() + tail == tail);
        }
    }
    while pos < t.len()
        invariant
            pos <= t@.len(),
            models == arg_models(args@),
            start == base.len(),
            out@ == base + out@.skip(start),
            rendered(t@, models) == after(
                out@.skip(start),
                render_from(t@, models, pos as int, cursor as int),
            ),
        decreases t@.len() - pos,
    {
        let b: u8 = t[pos];
        let ghost done = out@.skip(start);
        let paired: bool = pos + 1 < t.len() && t[pos + 1] == b;
        if (b == OPEN || b == CLOSE) && paired {
            out.push(b);
            proof {
                assert(out@.skip(start) == done + seq![b]);
                lemma_after_after(
                    done,
                    seq![b],
                    render_from(t@, models, pos + 2, cursor as int),
                );
            }
            pos = pos + 2;
        } else if b == OPEN {
            let close: usize = find_byte(t, pos + 1, CLOSE);
            if close >= t.len() {
                return Err(FormatError::UnclosedHole);
            }
            let ghost before = out@;
            match push_hole(out, slice_subrange(t, pos + 1, close), args, cursor) {
                Err(e) => {
                    return Err(e);
                },
                Ok(next) => {
                    proof {
                        let text = out@.skip(before.len() as int);
                        assert(out@.skip(start) == done + text);
                        lemma_after_after(
                            done,
                            text,
                            render_from(t@, models, close + 1, next as int),
                        );
                    }
                    cursor = next;
                    pos = close + 1;
                },
            }
        } else if b == CLOSE {
            return Err(FormatError::StrayClose);
        } else {
            out.push(b);
            proof {
                assert(out@.skip(start) == done + seq![b]);
                lemma_after_after(
                    done,
                    seq![b],
                    render_from(t@, models, pos + 1, cursor as int),
                );
            }
            pos = pos + 1;
        }
    }
    proof {
        assert(out@.skip(start) + Seq::<u8>::empty() == out@.skip(start));
    }
    Ok(())
}

/// Renders `template` with `args`.
///
/// The result is the text if every hole of the template finds its argument
/// and the argument has the form asked for, and the error of the first hole
/// from the left otherwise.
pub fn render(template: &str, args: &Vec<Arg>) -> (r: Result<Vec<u8>, FormatError>)
    ensures
        match r {
            Ok(text) => rendered(template.spec_bytes(), arg_models(args@)) == Ok::<
                Seq<u8>,
                FormatError,
            >(text@),
            Err(e) => rendered(template.spec_bytes(), arg_models(args@)) == Err::<
                Seq<u8>,
                FormatError,
            >(e),
        },
{
    let mut out: Vec<u8> = Vec::new();
    match push_rendered(&mut out, template.as_bytes(), args) {
        Ok(()) => {
            assert(out@.skip(0) == out@);
            Ok(out)
        },
        Err(e) => Err(e),
    }
}

/// Renders `template` with `args` and ends the text with exactly one newline.
pub fn render_line(template: &str, args: &Vec<Arg>) -> (r: Result<Vec<u8>, FormatError>)
    ensures
        match r {
            Ok(text) => rendered_line(template.spec_bytes(), arg_models(args@)) == Ok::<
                Seq<u8>,
                FormatError,
            >(text@),
            Err(e) => rendered_line(template.spec_bytes(), arg_models(args@)) == Err::<
                Seq<u8>,
                FormatError,
            >(e),
        },
{
    match render(template, args) {
        Ok(mut text) => {
            text.push(10);
            Ok(text)
        },
        Err(e) => Err(e),
    }
}

/// Whether `t` holds no brace.
pub open spec fn no_braces(t: Seq<u8>) -> bool {
    forall|i: int| 0 <= i < t.len() ==> #[trigger] t[i] != OPEN && t[i] != CLOSE
}

/// A template without braces renders to itself from any place on, whatever
/// the arguments.
pub proof fn lemma_plain_text_from(t: Seq<u8>, args: Seq<ArgModel>, pos: int, cursor: int)
    requires
        no_braces(t),
        0 <= pos <= t.len(),
    ensures
        render_from(t, args, pos, cursor) == Ok::<Seq<u8>, FormatError>(t.skip(pos)),
    decreases t.len() - pos,
{
    if pos < t.len() {
        lemma_plain_text_from(t, args, pos + 1, cursor);
        assert(seq![t[pos]] + t.skip(pos + 1) == t.skip(pos));
    } else {
        assert(t.skip(pos) == Seq::<u8>::empty());
    }
}

/// A template without braces renders to itself: every byte is copied, none
/// added, whatever the arguments.
pub proof fn lemma_plain_text(t: Seq<u8>, args: Seq<ArgModel>)
    requires
        no_braces(t),
    ensures
        rendered(t, args) == Ok::<Seq<u8>, FormatError>(t),
        rendered_line(t, args) == Ok::<Seq<u8>, FormatError>(t.push(10u8)),
{
    lemma_plain_text_from(t, args, 0, 0);
    assert(t.skip(0) == t);
}

/// A line without a template is one newline and nothing else, whatever the
/// arguments.
pub proof fn lemma_empty_line(args: Seq<ArgModel>)
    ensures
        rendered_line(Seq::<u8>::empty(), args) == Ok::<Seq<u8>, FormatError>(seq![10u8]),
{
    assert(Seq::<u8>::empty().push(10u8) == seq![10u8]);
}

/// The template `{}` with one unnamed text renders to that text, byte for
/// byte, and as a line to the text and exactly one newline.
pub proof fn lemma_hole_shows_text(text: Seq<u8>)
    ensures
        rendered(seq![OPEN, CLOSE], seq![ArgModel { name: None, value: ValueModel::Text(text) }])
            == Ok::<Seq<u8>, FormatError>(text),
        rendered_line(
            seq![OPEN, CLOSE],
            seq![ArgModel { name: None, value: ValueModel::Text(text) }],
        ) == Ok::<Seq<u8>, FormatError>(text.push(10u8)),
{
    let t = seq![OPEN, CLOSE];
    let args = seq![ArgModel { name: None, value: ValueModel::Text(text) }];
    let inner = t.subrange(1, 1);
    assert(gap(t, 1, CLOSE) == 0);
    assert(inner == Seq::<u8>::empty());
    assert(gap(inner, 0, COLON) == 0);
    assert(inner.subrange(0, 0) == Seq::<u8>::empty());
    assert(next_unnamed(args, 0) == 0);
    assert(fill_hole(inner, args, 0) == Ok::<(Seq<u8>, int), FormatError>((text, 1)));
    assert(render_from(t, args, 2, 1) == Ok::<Seq<u8>, FormatError>(Seq::empty()));
    assert(text + Seq::<u8>::empty() == text);
}

/// The debug form of a list is its items' debug forms in their order, with
/// `, ` between neighbours and square brackets around.
pub proof fn lemma_list_text_grows(items: Seq<NumberModel>, last: NumberModel)
    requires
        items.len() > 0,
    ensures
        joined_text(items.push(last)) == joined_text(items) + seq![44u8, 32u8] + number_text(
            last,
            Style::Debug,
        ),
        list_text(Seq::empty()) == seq![91u8, 93u8],
        list_text(seq![last]) == seq![91u8] + number_text(last, Style::Debug) + seq![93u8],
{
    assert(items.push(last).drop_last() == items);
    assert(joined_text(Seq::<NumberModel>::empty()) == Seq::<u8>::empty());
    assert(seq![91u8] + Seq::<u8>::empty() + seq![93u8] == seq![91u8, 93u8]);
    assert(seq![last][0] == last);
}

} // verus!
