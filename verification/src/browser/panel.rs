//! The panel's workspace buttons and its clock.

use crate::browser::scene::{nothing, perform, Effect, EffectView, Shell, ShellView};
use crate::browser::shortcuts::{workspace_label, workspace_name};
use crate::text::{
    decimal, decimal_reads_back, decimal_value, digit, format_decimal, is_decimal,
};
use vstd::prelude::*;

verus! {

/// How many workspaces there are. Fixed at the usual four: a count nobody
/// changes is not a setting, and empty ones cost nothing.
pub const WORKSPACES: u32 = 4;

/// A number in two digits at least.
pub open spec fn two_digits(value: nat) -> Seq<char> {
    if value < 10 {
        "0"@ + decimal(value)
    } else {
        decimal(value)
    }
}

fn pad(value: u32) -> (text: String)
    ensures
        text@ == two_digits(value as nat),
{
    if value < 10 {
        let mut text = "0".to_string();
        text.append(format_decimal(value as u64).as_str());
        text
    } else {
        format_decimal(value as u64)
    }
}

/// Wall clock as `HH:MM`, for the panel.
pub fn clock(hours: u32, minutes: u32) -> (text: String)
    ensures
        text@ == two_digits(hours as nat) + ":"@ + two_digits(minutes as nat),
{
    let mut text = pad(hours);
    text.append(":");
    text.append(pad(minutes).as_str());
    text
}

/// What a workspace's button says: they are counted from one.
pub fn workspace_number(workspace: u32) -> (text: String)
    ensures
        text@ == decimal((workspace + 1) as nat),
{
    format_decimal(workspace as u64 + 1)
}

/// Show a workspace, from its button. The launcher closes; the seat stays where
/// it is.
pub fn show_workspace(shell: &mut Shell, workspace: u32) -> (effects: Vec<Effect>)
    ensures
        final(shell)@ == (ShellView { workspace, launcher_open: false, ..old(shell)@ }),
        effects.deep_view() == seq![EffectView::Toast(workspace_label(workspace))],
{
    shell.launcher_open = false;
    shell.workspace = workspace;
    let mut effects = nothing();
    perform(&mut effects, Effect::Toast(workspace_name(workspace)));
    assert(effects.deep_view() =~= seq![EffectView::Toast(workspace_label(workspace))]);
    assert(shell@ =~= (ShellView { workspace, launcher_open: false, ..old(shell)@ }));
    effects
}

/// A number on the clock is that number, in two digits at least, and in just two
/// for any hour or minute there is.
pub proof fn a_clock_says_the_time(value: nat)
    ensures
        decimal_value(two_digits(value)) == value,
        is_decimal(two_digits(value)),
        two_digits(value).len() >= 2,
        value < 100 ==> two_digits(value).len() == 2,
{
    decimal_reads_back(value);
    reveal_strlit("0");
    if value < 10 {
        let text = two_digits(value);
        assert(decimal(value) =~= seq![(value + '0' as nat) as char]);
        assert(text =~= seq!['0', (value + '0' as nat) as char]);
        assert(text.drop_last() =~= seq!['0']);
        assert(text.drop_last().drop_last() =~= Seq::empty());
        reveal_with_fuel(decimal_value, 3);
        assert(digit('0') == 0);
    } else {
        assert(decimal(value).len() == decimal(value / 10).len() + 1);
        assert(decimal(value / 10).len() >= 1);
        if value < 100 {
            assert(decimal(value / 10).len() == 1);
        }
    }
}

} // verus!
