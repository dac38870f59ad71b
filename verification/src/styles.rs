//! The utility-class strings the interface styles its elements with.

use vstd::prelude::*;

verus! {

#[derive(Clone, Copy, Debug, PartialEq, Eq, Structural)]
pub enum ButtonStyle {
    Primary,
    Secondary,
    Danger,
    Neutral,
    Nothing,
}

impl ButtonStyle {
    /// The color classes of each button flavor.
    pub open spec fn spec_base_class(&self) -> Seq<char> {
        match self {
            ButtonStyle::Primary => "bg-cyan-500 text-blue-50"@,
            ButtonStyle::Secondary => "bg-lime-600 text-blue-50"@,
            ButtonStyle::Danger => "bg-rose-400 text-blue-50"@,
            ButtonStyle::Neutral => "bg-zinc-400 text-stone-200"@,
            ButtonStyle::Nothing => ""@,
        }
    }

    /// The full class string of a button: its color classes, the given
    /// custom classes, and the shared button classes.
    pub open spec fn spec_class_with(&self, custom: Seq<char>) -> Seq<char> {
        self.spec_base_class() + " "@ + custom
            + " rounded p-2 disabled:cursor-not-allowed disabled:bg-slate-600"@
    }

    pub fn class(&self) -> (r: String)
        ensures
            r@ == self.spec_class_with(""@),
    {
        self.class_with("")
    }

    pub fn class_with(&self, custom: &str) -> (r: String)
        ensures
            r@ == self.spec_class_with(custom@),
    {
        let base: &'static str = match self {
            ButtonStyle::Primary => "bg-cyan-500 text-blue-50",
            ButtonStyle::Secondary => "bg-lime-600 text-blue-50",
            ButtonStyle::Danger => "bg-rose-400 text-blue-50",
            ButtonStyle::Neutral => "bg-zinc-400 text-stone-200",
            ButtonStyle::Nothing => "",
        };
        let mut r = base.to_owned();
        r.append(" ");
        r.append(custom);
        r.append(" rounded p-2 disabled:cursor-not-allowed disabled:bg-slate-600");
        r
    }
}

pub fn text_input_class(custom: &str) -> (r: String)
    ensures
        r@ == custom@ + " border rounded border-slate-400 bg-slate-600 px-3"@,
{
    let mut r = custom.to_owned();
    r.append(" border rounded border-slate-400 bg-slate-600 px-3");
    r
}

pub fn number_input_class(custom: &str) -> (r: String)
    ensures
        r@ == custom@ + " border rounded border-slate-400 bg-slate-600 px-2"@,
{
    let mut r = custom.to_owned();
    r.append(" border rounded border-slate-400 bg-slate-600 px-2");
    r
}

pub fn judge_class() -> (r: &'static str)
    ensures
        r@ == "font-bold text-amber-600"@,
{
    "font-bold text-amber-600"
}

pub fn counter_class() -> (r: &'static str)
    ensures
        r@ == "text-lime-100"@,
{
    "text-lime-100"
}

} // verus!
