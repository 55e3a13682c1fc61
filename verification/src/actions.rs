//! The action dispatcher's decision logic: scanning a definition's actions
//! for a label, evaluating guarding conditions through the template
//! resolver, and turning the first passing action into an executable plan.
//! Running the planned command, and populating a pushed frame, are the
//! embedding program's part.

use vstd::prelude::*;

use crate::fuzzy::ci_eq;
use crate::spell::Action;
use crate::state::Frame;
use crate::strutil::{find2, find2_exec, str_eq, string_eq, trim_str, trim_view};
use crate::template::{render_of, resolve_template, template_data, TemplateError};

verus! {

/// What invoking an action comes down to once decided: run a tokenized
/// command, or push the frame of another definition.
#[derive(Debug)]
pub enum ActionPlan {
    RunCmd { program: String, args: Vec<String> },
    PushSpell { spell_id: String },
}

/// An action's configured name, if any.
pub open spec fn action_name_of(a: Action) -> Option<Seq<char>> {
    match a {
        Action::Cmd { name, .. } => match name {
            Some(s) => Some(s@),
            None => None,
        },
        Action::Spell { name, .. } => match name {
            Some(s) => Some(s@),
            None => None,
        },
    }
}

/// An action's guarding condition, if any.
pub open spec fn action_cond_of(a: Action) -> Option<Seq<char>> {
    match a {
        Action::Cmd { condition, .. } => match condition {
            Some(s) => Some(s@),
            None => None,
        },
        Action::Spell { condition, .. } => match condition {
            Some(s) => Some(s@),
            None => None,
        },
    }
}

/// The label an action answers to: its name, or the reserved main label
/// when unnamed.
pub open spec fn label_of(a: Action) -> Seq<char> {
    match action_name_of(a) {
        Some(n) => n,
        None => "MAIN"@,
    }
}

/// An action's configured name.
pub fn action_name(action: &Action) -> (r: Option<&str>)
    ensures
        r is Some <==> action_name_of(*action) is Some,
        r matches Some(s) ==> s@ == action_name_of(*action)->Some_0,
{
    match action {
        Action::Cmd { name, .. } => match name {
            Some(s) => Some(s.as_str()),
            None => None,
        },
        Action::Spell { name, .. } => match name {
            Some(s) => Some(s.as_str()),
            None => None,
        },
    }
}

/// An action's guarding condition.
pub fn action_condition(action: &Action) -> (r: Option<&str>)
    ensures
        r is Some <==> action_cond_of(*action) is Some,
        r matches Some(s) ==> s@ == action_cond_of(*action)->Some_0,
{
    match action {
        Action::Cmd { condition, .. } => match condition {
            Some(s) => Some(s.as_str()),
            None => None,
        },
        Action::Spell { condition, .. } => match condition {
            Some(s) => Some(s.as_str()),
            None => None,
        },
    }
}

/// Case-insensitive text equality.
pub open spec fn ci_eq_seq(a: Seq<char>, b: Seq<char>) -> bool {
    a.len() == b.len() && forall|i: int| 0 <= i < a.len() ==> ci_eq(a[i], b[i])
}

fn ci_eq_str(a: &str, b: &str) -> (r: bool)
    ensures
        r == ci_eq_seq(a@, b@),
{
    let n = a.unicode_len();
    let m = b.unicode_len();
    if n != m {
        return false;
    }
    let mut i: usize = 0;
    while i < n
        invariant
            0 <= i <= n,
            n == a@.len(),
            n == b@.len(),
            forall|k: int| 0 <= k < i ==> ci_eq(a@[k], b@[k]),
        decreases n - i,
    {
        if !crate::fuzzy::ci_eq_exec(a.get_char(i), b.get_char(i)) {
            return false;
        }
        i += 1;
    }
    true
}

/// Strips one pair of matching surrounding quote characters, single or
/// double.
pub open spec fn strip_quotes_view(s: Seq<char>) -> Seq<char> {
    if s.len() >= 2 && ((s[0] == '"' && s.last() == '"') || (s[0] == '\'' && s.last() == '\'')) {
        s.subrange(1, s.len() - 1)
    } else {
        s
    }
}

/// A condition operand normalized: trimmed, with matching surrounding
/// quotes stripped.
pub open spec fn norm_value(s: Seq<char>) -> Seq<char> {
    strip_quotes_view(trim_view(s))
}

/// Strips matching surrounding quote characters from a value.
pub fn strip_matching_quotes<'a>(value: &'a str) -> (r: &'a str)
    ensures
        r@ == strip_quotes_view(value@),
{
    let n = value.unicode_len();
    if n >= 2 {
        let first = value.get_char(0);
        let last = value.get_char(n - 1);
        if (first == '"' && last == '"') || (first == '\'' && last == '\'') {
            return value.substring_char(1, n - 1);
        }
    }
    value
}

/// Normalizes one side of a condition comparison.
pub fn normalize_condition_value(value: &str) -> (r: String)
    ensures
        r@ == norm_value(value@),
{
    strip_matching_quotes(trim_str(value)).to_owned()
}

/// How rendered condition text is read: empty passes; `==` / `!=` compare
/// normalized operands; the usual boolean spellings count; any other
/// non-empty text is truthy.
pub open spec fn cond_holds(rendered: Seq<char>) -> bool {
    let t = trim_view(rendered);
    if t.len() == 0 {
        true
    } else {
        let e = find2(t, '=', '=', 0);
        let ne = find2(t, '!', '=', 0);
        if e >= 0 {
            norm_value(t.subrange(0, e)) == norm_value(t.subrange(e + 2, t.len() as int))
        } else if ne >= 0 {
            norm_value(t.subrange(0, ne)) != norm_value(t.subrange(ne + 2, t.len() as int))
        } else if ci_eq_seq(t, "true"@) || ci_eq_seq(t, "1"@) || ci_eq_seq(t, "yes"@) || ci_eq_seq(
            t,
            "y"@,
        ) {
            true
        } else if ci_eq_seq(t, "false"@) || ci_eq_seq(t, "0"@) || ci_eq_seq(t, "no"@) || ci_eq_seq(
            t,
            "n"@,
        ) {
            false
        } else {
            true
        }
    }
}

/// Reads rendered condition text, per `cond_holds`.
fn eval_cond_text(rendered: &str) -> (r: bool)
    ensures
        r == cond_holds(rendered@),
{
    let t = trim_str(rendered);
    let n = t.unicode_len();
    if n == 0 {
        return true;
    }
    match find2_exec(t, '=', '=') {
        Some(i) => {
            let lhs = normalize_condition_value(t.substring_char(0, i));
            let rhs = normalize_condition_value(t.substring_char(i + 2, n));
            return string_eq(&lhs, &rhs);
        },
        None => {},
    }
    match find2_exec(t, '!', '=') {
        Some(i) => {
            let lhs = normalize_condition_value(t.substring_char(0, i));
            let rhs = normalize_condition_value(t.substring_char(i + 2, n));
            return !string_eq(&lhs, &rhs);
        },
        None => {},
    }
    if ci_eq_str(t, "true") || ci_eq_str(t, "1") || ci_eq_str(t, "yes") || ci_eq_str(t, "y") {
        return true;
    }
    if ci_eq_str(t, "false") || ci_eq_str(t, "0") || ci_eq_str(t, "no") || ci_eq_str(t, "n") {
        return false;
    }
    true
}

/// Evaluates an action's guarding condition against the stack: an absent
/// condition passes; a rendering failure is the caller's error; rendered
/// text is read per `cond_holds`.
pub fn condition_passes(condition: Option<&str>, frames: &Vec<Frame>) -> (r: Result<bool, String>)
    ensures
        condition is None ==> r == Result::<bool, String>::Ok(true),
        condition matches Some(c) ==> match render_of(c@, template_data(frames@)) {
            Result::Err(e) => r matches Err(m) && m@ == e,
            Result::Ok(text) => r == Result::<bool, String>::Ok(cond_holds(text)),
        },
{
    match condition {
        None => Ok(true),
        Some(raw) => match resolve_template(raw, frames) {
            Err(TemplateError::Render(e)) => Err(e),
            Ok(text) => Ok(eval_cond_text(text.as_str())),
        },
    }
}

/// What scanning the action list yields: a rendering failure of some
/// condition, the first action matching label and condition, or nothing.
pub enum ScanOutcome {
    RenderErr(Seq<char>),
    Found(int),
    NotFound,
}

/// The declaration-order scan: label mismatches and failed conditions are
/// skipped; a condition that fails to render aborts the scan.
pub open spec fn scan_actions(
    actions: Seq<Action>,
    label: Seq<char>,
    data: crate::template::JsonNode,
    i: int,
) -> ScanOutcome
    decreases actions.len() - i when 0 <= i
{
    if i >= actions.len() {
        ScanOutcome::NotFound
    } else if label_of(actions[i]) != label {
        scan_actions(actions, label, data, i + 1)
    } else {
        match action_cond_of(actions[i]) {
            None => ScanOutcome::Found(i),
            Some(c) => match render_of(c, data) {
                Result::Err(e) => ScanOutcome::RenderErr(e),
                Result::Ok(t) => if cond_holds(t) {
                    ScanOutcome::Found(i)
                } else {
                    scan_actions(actions, label, data, i + 1)
                },
            },
        }
    }
}

/// The result is exactly an error message.
pub open spec fn err_msg(r: Result<ActionPlan, String>, m: Seq<char>) -> bool {
    r matches Err(e) && e@ == m
}

/// The full account of `resolve_action`: what plan or error comes back for
/// every action list, stack and label.
pub open spec fn plan_matches(
    actions: Seq<Action>,
    frames: Seq<Frame>,
    label: Seq<char>,
    r: Result<ActionPlan, String>,
) -> bool {
    let data = template_data(frames);
    match scan_actions(actions, label, data, 0) {
        ScanOutcome::RenderErr(e) => err_msg(r, e),
        ScanOutcome::NotFound => err_msg(r, "no matching action for label "@ + label),
        ScanOutcome::Found(i) => match actions[i] {
            Action::Cmd { cmd, .. } => match render_of(cmd@, data) {
                Result::Err(e) => err_msg(r, e),
                Result::Ok(text) => if trim_view(text).len() == 0 {
                    err_msg(r, "resolved command is empty"@)
                } else {
                    match crate::actions::shell_split(text) {
                        None => err_msg(
                            r,
                            "failed to parse action command: missing closing quote"@,
                        ),
                        Some(argv) => if argv.len() == 0 {
                            err_msg(r, "resolved command is empty"@)
                        } else {
                            r matches Ok(p) && p matches ActionPlan::RunCmd { program, args }
                                && program@ == argv[0] && args.deep_view() == argv.drop_first()
                        },
                    }
                },
            },
            Action::Spell { spell, .. } => match render_of(spell@, data) {
                Result::Err(e) => err_msg(r, e),
                Result::Ok(text) => if trim_view(text).len() == 0 {
                    err_msg(r, "resolved spell id is empty"@)
                } else {
                    r matches Ok(p) && p matches ActionPlan::PushSpell { spell_id } && spell_id@
                        == trim_view(text)
                },
            },
        },
    }
}

/// What shell-style tokenization yields for a command line, or nothing
/// when a quote is left unclosed.
pub uninterp spec fn shell_split(s: Seq<char>) -> Option<Seq<Seq<char>>>;

/// Relies on `shell_words::split`: POSIX-shell word splitting, a function
/// of the text alone; its one parse error is an unclosed quote.
#[verifier::external_body]
fn split_shell(s: &str) -> (r: Result<Vec<String>, String>)
    ensures
        r is Ok <==> shell_split(s@) is Some,
        r matches Ok(v) ==> v.deep_view() == shell_split(s@)->Some_0,
        r matches Err(e) ==> e@ == "missing closing quote"@,
{
    shell_words::split(s).map_err(|e| e.to_string())
}

/// Scans a definition's actions for the label, evaluates conditions in
/// declaration order, and builds the plan of the first action that passes:
/// a tokenized command, or the id of the definition to push.
pub fn resolve_action(actions: &Vec<Action>, label: &str, frames: &Vec<Frame>) -> (r: Result<
    ActionPlan,
    String,
>)
    ensures
        plan_matches(actions@, frames@, label@, r),
{
    let ghost data = template_data(frames@);
    let n = actions.len();
    let mut i: usize = 0;
    while i < n
        invariant
            0 <= i <= n,
            n == actions@.len(),
            data == template_data(frames@),
            scan_actions(actions@, label@, data, 0) == scan_actions(actions@, label@, data, i as int),
        decreases n - i,
    {
        let a = &actions[i];
        let matches_label = match action_name(a) {
            Some(nm) => str_eq(nm, label),
            None => str_eq("MAIN", label),
        };
        assert(matches_label == (label_of(actions@[i as int]) == label@));
        if matches_label {
            let passes = match condition_passes(action_condition(a), frames) {
                Ok(b) => b,
                Err(e) => {
                    return Err(e);
                },
            };
            if passes {
                assert(scan_actions(actions@, label@, data, 0) == ScanOutcome::Found(i as int));
                return build_plan(a, frames);
            }
        }
        i += 1;
    }
    let mut msg = "no matching action for label ".to_owned();
    msg.append(label);
    Err(msg)
}

/// Builds the executable plan of an already chosen action.
fn build_plan(action: &Action, frames: &Vec<Frame>) -> (r: Result<ActionPlan, String>)
    ensures
        match *action {
            Action::Cmd { cmd, .. } => match render_of(cmd@, template_data(frames@)) {
                Result::Err(e) => err_msg(r, e),
                Result::Ok(text) => if trim_view(text).len() == 0 {
                    err_msg(r, "resolved command is empty"@)
                } else {
                    match shell_split(text) {
                        None => err_msg(
                            r,
                            "failed to parse action command: missing closing quote"@,
                        ),
                        Some(argv) => if argv.len() == 0 {
                            err_msg(r, "resolved command is empty"@)
                        } else {
                            r matches Ok(p) && p matches ActionPlan::RunCmd { program, args }
                                && program@ == argv[0] && args.deep_view() == argv.drop_first()
                        },
                    }
                },
            },
            Action::Spell { spell, .. } => match render_of(spell@, template_data(frames@)) {
                Result::Err(e) => err_msg(r, e),
                Result::Ok(text) => if trim_view(text).len() == 0 {
                    err_msg(r, "resolved spell id is empty"@)
                } else {
                    r matches Ok(p) && p matches ActionPlan::PushSpell { spell_id } && spell_id@
                        == trim_view(text)
                },
            },
        },
{
    match action {
        Action::Cmd { cmd, .. } => {
            let text = match resolve_template(cmd.as_str(), frames) {
                Err(TemplateError::Render(e)) => {
                    return Err(e);
                },
                Ok(t) => t,
            };
            if trim_str(text.as_str()).unicode_len() == 0 {
                return Err("resolved command is empty".to_owned());
            }
            let argv = match split_shell(text.as_str()) {
                Err(e) => {
                    proof {
                        reveal_strlit("failed to parse action command: ");
                        reveal_strlit("missing closing quote");
                        reveal_strlit("failed to parse action command: missing closing quote");
                    }
                    let mut msg = "failed to parse action command: ".to_owned();
                    msg.append(e.as_str());
                    proof {
                        assert(msg@ =~= "failed to parse action command: missing closing quote"@);
                    }
                    return Err(msg);
                },
                Ok(v) => v,
            };
            if argv.len() == 0 {
                proof {
                    assert(shell_split(text@)->Some_0.len() == 0);
                }
                return Err("resolved command is empty".to_owned());
            }
            let program = argv[0].clone();
            let m = argv.len();
            let mut args: Vec<String> = Vec::new();
            let mut k: usize = 1;
            while k < m
                invariant
                    1 <= k <= m,
                    m == argv@.len(),
                    args@.len() == k - 1,
                    forall|j: int| 0 <= j < k - 1 ==> (#[trigger] args@[j])@ == argv@[j + 1]@,
                decreases m - k,
            {
                args.push(argv[k].clone());
                k += 1;
            }
            proof {
                assert(args.deep_view() =~= argv.deep_view().drop_first());
            }
            Ok(ActionPlan::RunCmd { program, args })
        },
        Action::Spell { spell, .. } => {
            let text = match resolve_template(spell.as_str(), frames) {
                Err(TemplateError::Render(e)) => {
                    return Err(e);
                },
                Ok(t) => t,
            };
            let trimmed = trim_str(text.as_str());
            if trimmed.unicode_len() == 0 {
                return Err("resolved spell id is empty".to_owned());
            }
            Ok(ActionPlan::PushSpell { spell_id: trimmed.to_owned() })
        },
    }
}

} // verus!
