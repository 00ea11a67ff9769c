//! Rendering to text, and the naming of pins.
use std::collections::BTreeMap;
use std::fmt::Write;

use indenter::indented;
use vstd::prelude::*;

verus! {

/// Something that renders to HDL text.
pub trait Emit {
    /// Whether the value can be rendered.
    spec fn emittable(&self) -> bool;

    /// The text that the value renders to.
    spec fn emitted(&self, ctx: &EmitCtx) -> Seq<char>;

    /// Appends the rendering of the value to `f`.
    fn emit(&self, f: &mut String, ctx: &EmitCtx)
        requires
            self.emittable(),
        ensures
            final(f)@ == old(f)@ + self.emitted(ctx),
    ;
}

/// What rendering consults: the names of the pins.
#[derive(Debug)]
pub struct EmitCtx {
    pub portmap: Portmap,
}

impl EmitCtx {
    /// The name of `pin`: its mapped name, else `p` and its number.
    pub open spec fn pin_name(&self, pin: usize) -> Seq<char> {
        if self.portmap@.contains_key(pin) {
            self.portmap@[pin]
        } else {
            seq!['p'] + decimal(pin as nat)
        }
    }

    /// The name of `pin` in the rendered text.
    pub fn pin(&self, pin: usize) -> (r: String)
        ensures
            r@ == self.pin_name(pin),
    {
        match self.portmap.map(pin) {
            Some(name) => name.to_owned(),
            None => {
                let mut r = String::new();
                r.append("p");
                proof {
                    reveal_strlit("p");
                }
                push_decimal(&mut r, pin);
                r
            },
        }
    }
}

/// Names given to pin numbers.
#[derive(Debug)]
pub struct Portmap {
    map: BTreeMap<usize, String>,
}

/// Why a pin-name map cannot be read.
#[derive(Debug)]
pub enum PortmapError {
    /// The text is not a RON map from pin numbers to names.
    Syntax(ron::error::SpannedError),
}

impl View for Portmap {
    type V = Map<usize, Seq<char>>;

    closed spec fn view(&self) -> Map<usize, Seq<char>> {
        self.map@.map_values(|s: String| s@)
    }
}

impl Portmap {
    /// A map that names no pin.
    pub fn new() -> (r: Portmap)
        ensures
            r@ == Map::<usize, Seq<char>>::empty(),
    {
        let r = Portmap { map: BTreeMap::new() };
        assert(r@ =~= Map::<usize, Seq<char>>::empty());
        r
    }

    /// The name of pin `i`, if it has one.
    pub fn map(&self, i: usize) -> (r: Option<&str>)
        ensures
            match r {
                Some(name) => self@.contains_key(i) && name@ == self@[i],
                None => !self@.contains_key(i),
            },
    {
        match self.map.get(&i) {
            Some(name) => Some(name.as_str()),
            None => None,
        }
    }

    /// Names pin `pin` `name`, replacing any earlier name.
    pub fn insert(&mut self, pin: usize, name: String)
        ensures
            final(self)@ == old(self)@.insert(pin, name@),
    {
        let ghost name_view = name@;
        self.map.insert(pin, name);
        assert(self@ =~= old(self)@.insert(pin, name_view));
    }

    /// Reads a map from pin numbers to names written in RON, such as
    /// `{2: "clk", 19: "out"}`.
    pub fn deser(text: &str) -> (r: Result<Portmap, PortmapError>)
        ensures
            match r {
                Ok(p) => ron_pin_names(text@) == Some(p@),
                Err(_) => ron_pin_names(text@) is None,
            },
    {
        match parse_pin_names(text) {
            Ok(map) => Ok(Portmap { map }),
            Err(e) => Err(PortmapError::Syntax(e)),
        }
    }
}

#[verifier::external_type_specification]
#[verifier::external_body]
pub struct ExSpannedError(ron::error::SpannedError);

/// The pin names that RON text denotes, or `None` when it is not a map
/// from pin numbers to strings.
pub uninterp spec fn ron_pin_names(text: Seq<char>) -> Option<Map<usize, Seq<char>>>;

/// Relies on ron::de::from_str: deserializes the text as a map from pin
/// numbers to names, an outcome that depends on the text alone.
#[verifier::external_body]
fn parse_pin_names(text: &str) -> (r: Result<BTreeMap<usize, String>, ron::error::SpannedError>)
    ensures
        match r {
            Ok(m) => ron_pin_names(text@) == Some(m@.map_values(|s: String| s@)),
            Err(_) => ron_pin_names(text@) is None,
        },
{
    ron::de::from_str(text)
}

/// `s` with `indentation` inserted before the first character of each
/// line that is not empty; `at_line_start` says whether `s` starts a line.
pub open spec fn indent_lines(s: Seq<char>, indentation: Seq<char>, at_line_start: bool) -> Seq<
    char,
>
    decreases s.len(),
{
    if s.len() == 0 {
        Seq::empty()
    } else if s[0] == '\n' {
        seq!['\n'] + indent_lines(s.drop_first(), indentation, true)
    } else {
        let prefix = if at_line_start {
            indentation
        } else {
            Seq::empty()
        };
        prefix + seq![s[0]] + indent_lines(s.drop_first(), indentation, false)
    }
}

/// Relies on indenter::indented with a uniform indentation: every line of
/// `text` that is not empty is written with `indentation` before it.
#[verifier::external_body]
pub(crate) fn indent_text(text: &str, indentation: &'static str) -> (r: String)
    ensures
        r@ == indent_lines(text@, indentation@, true),
{
    let mut out = String::new();
    let _ = indented(&mut out).with_str(indentation).write_str(text);
    out
}

/// The character of the decimal digit `d`.
pub open spec fn digit_char(d: nat) -> char {
    if d == 0 {
        '0'
    } else if d == 1 {
        '1'
    } else if d == 2 {
        '2'
    } else if d == 3 {
        '3'
    } else if d == 4 {
        '4'
    } else if d == 5 {
        '5'
    } else if d == 6 {
        '6'
    } else if d == 7 {
        '7'
    } else if d == 8 {
        '8'
    } else {
        '9'
    }
}

/// The decimal digits of `n`, without leading zeros.
pub open spec fn decimal(n: nat) -> Seq<char>
    decreases n,
{
    if n < 10 {
        seq![digit_char(n)]
    } else {
        decimal(n / 10) + seq![digit_char(n % 10)]
    }
}

fn digit_str(d: usize) -> (r: &'static str)
    requires
        d < 10,
    ensures
        r@ == seq![digit_char(d as nat)],
{
    proof {
        reveal_strlit("0");
        reveal_strlit("1");
        reveal_strlit("2");
        reveal_strlit("3");
        reveal_strlit("4");
        reveal_strlit("5");
        reveal_strlit("6");
        reveal_strlit("7");
        reveal_strlit("8");
        reveal_strlit("9");
    }
    match d {
        0 => "0",
        1 => "1",
        2 => "2",
        3 => "3",
        4 => "4",
        5 => "5",
        6 => "6",
        7 => "7",
        8 => "8",
        _ => "9",
    }
}

/// Appends the decimal digits of `n` to `out`.
pub fn push_decimal(out: &mut String, n: usize)
    ensures
        final(out)@ == old(out)@ + decimal(n as nat),
    decreases n,
{
    if n >= 10 {
        push_decimal(out, n / 10);
    }
    out.append(digit_str(n % 10));
}

} // verus!
