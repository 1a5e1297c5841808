//! What holds of every plan.
use crate::config::AppView;
use crate::model::{first_match, OutputView, Real};
use crate::reconciler::plan::{
    all_answered, app_target, fullscreen_commands, is_plan, move_commands, output_command,
    wallpaper_answered, window_command, Answers, Entry, PlanInputs, PlanView,
};
use crate::text::decimal;
use vstd::prelude::*;

verus! {

impl Entry {
    /// The output reports what the entry asks for.
    pub open spec fn satisfied(self) -> bool {
        &&& self.output.active
        &&& self.config.mode is Some ==> {
            let target = self.mode_target(self.config.mode->0);
            target is Some ==> self.output.current_mode == target
        }
        &&& self.config.position is Some ==> self.output.rect.x == self.config.position->0.x
            && self.output.rect.y == self.config.position->0.y
        &&& self.config.scale is Some ==> self.output.scale is Some && !self.answers.scale_differs
        &&& self.config.transform is Some ==> self.output.transform == Some(
            self.config.transform->0.sway_text(),
        )
        &&& self.adaptive_sync_settled()
    }
}

/// An output that reports what is asked of it, and was last given exactly that,
/// is sent nothing.
pub proof fn satisfied_output_is_left_alone(entry: Entry)
    requires
        entry.satisfied(),
        entry.applied == Some(entry.record()),
    ensures
        entry.commands() == Seq::<Seq<char>>::empty(),
{
    assert(!entry.force());
    assert(entry.commands() =~= Seq::<Seq<char>>::empty());
}

/// Where an output is being enabled, or was not managed before, every setting
/// that it asks for is issued, whatever it reports.
pub proof fn forced_output_gets_every_setting(entry: Entry)
    requires
        entry.force(),
    ensures
        entry.config.mode is Some && entry.mode_target(entry.config.mode->0) is Some
            ==> entry.mode_commands().len() == 1,
        entry.config.position is Some ==> entry.position_commands().len() == 1,
        entry.config.scale is Some ==> entry.scale_commands().len() == 1,
        entry.config.transform is Some ==> entry.transform_commands().len() == 1,
        entry.adaptive_sync_commands().len() == 1,
        entry.capabilities.supports_tearing ==> entry.tearing_commands().len() == 1,
        entry.render_time_commands().len() == 1,
        entry.resolved_background() is Some ==> entry.background_commands().len()
            + entry.background_divergences().len() == 1,
        entry.workspace_commands().len() == 1,
{
}

/// Enabling comes before every setting: the compositor forgets what it was told
/// of an output that is off.
pub proof fn enabling_comes_first(entry: Entry)
    requires
        !entry.output.active,
    ensures
        entry.commands().len() > 0,
        entry.commands()[0] == output_command(entry.output.name, " enable"@),
{
    assert(entry.enable_commands()[0] == output_command(entry.output.name, " enable"@));
}

/// A change of the picture behind a reference reaches the screen, even where the
/// reference itself stays the same.
pub proof fn edited_background_is_repainted(entry: Entry)
    requires
        entry.applied is Some,
        entry.resolved_background() is Some,
        entry.resolved_background() != entry.applied->0.background,
    ensures
        entry.background_commands().len() + entry.background_divergences().len() == 1,
{
}

/// No two live entries among the first `n` are about the same output.
pub open spec fn distinct_outputs(inputs: PlanInputs, n: int) -> bool {
    forall|i: int, j: int|
        0 <= i < j < n && #[trigger] inputs.live(i) && #[trigger] inputs.live(j) ==> inputs.output_of(
            i,
        )->0.name != inputs.output_of(j)->0.name
}

/// Workspaces follow the order of the entries: the entry at `i` has its output
/// pinned to workspace `i + 1`, and what is recorded of it is what it asked for.
pub proof fn workspaces_follow_declaration_order(
    inputs: PlanInputs,
    answers: Seq<Answers>,
    n: int,
    i: int,
)
    requires
        0 <= i < n <= inputs.desired.len() < u32::MAX,
        inputs.live(i),
        distinct_outputs(inputs, n),
    ensures
        inputs.plan(answers, n).workspaces.dom().contains(inputs.output_of(i)->0.name),
        inputs.plan(answers, n).workspaces[inputs.output_of(i)->0.name] == i + 1,
        inputs.plan(answers, n).applied.dom().contains(inputs.output_of(i)->0.name),
        inputs.plan(answers, n).applied[inputs.output_of(i)->0.name] == inputs.entry(
            i,
            answers[i],
        ).record(),
    decreases n,
{
    if i < n - 1 {
        assert forall|a: int, b: int|
            0 <= a < b < n - 1 && #[trigger] inputs.live(a) && #[trigger] inputs.live(
                b,
            ) implies inputs.output_of(a)->0.name != inputs.output_of(b)->0.name by {}
        workspaces_follow_declaration_order(inputs, answers, n - 1, i);
        if inputs.live(n - 1) {
            assert(inputs.output_of(i)->0.name != inputs.output_of(n - 1)->0.name);
        }
    }
}

/// Only an output that an entry wants live is given a workspace.
pub proof fn only_wanted_outputs_get_a_workspace(
    inputs: PlanInputs,
    answers: Seq<Answers>,
    n: int,
    name: Seq<char>,
)
    requires
        0 <= n <= inputs.desired.len(),
        inputs.plan(answers, n).workspaces.dom().contains(name),
    ensures
        exists|i: int| 0 <= i < n && #[trigger] inputs.live(i) && inputs.output_of(i)->0.name == name,
        inputs.plan(answers, n).applied.dom().contains(name),
    decreases n,
{
    if n > 0 {
        if inputs.live(n - 1) && inputs.output_of(n - 1)->0.name == name {
        } else {
            only_wanted_outputs_get_a_workspace(inputs, answers, n - 1, name);
        }
    }
}

/// The command is about the output of a name.
pub open spec fn addresses(command: Seq<char>, name: Seq<char>) -> bool {
    ||| exists|rest: Seq<char>| command == #[trigger] output_command(name, rest)
    ||| exists|workspace: nat|
        command == "workspace "@ + #[trigger] decimal(workspace) + " output "@ + name
}

proof fn lemma_joined_addresses(a: Seq<Seq<char>>, b: Seq<Seq<char>>, name: Seq<char>)
    requires
        forall|k: int| 0 <= k < a.len() ==> addresses(#[trigger] a[k], name),
        forall|k: int| 0 <= k < b.len() ==> addresses(#[trigger] b[k], name),
    ensures
        forall|k: int| 0 <= k < (a + b).len() ==> addresses(#[trigger] (a + b)[k], name),
{
    assert forall|k: int| 0 <= k < (a + b).len() implies addresses(#[trigger] (a + b)[k], name) by {
        if k < a.len() {
            assert((a + b)[k] == a[k]);
        } else {
            assert((a + b)[k] == b[k - a.len()]);
        }
    }
}

proof fn lemma_entry_addresses(entry: Entry)
    ensures
        forall|k: int|
            0 <= k < entry.commands().len() ==> addresses(
                #[trigger] entry.commands()[k],
                entry.output.name,
            ),
{
    let name = entry.output.name;
    let a = entry.enable_commands();
    let b = entry.mode_commands();
    let c = entry.position_commands();
    let d = entry.scale_commands();
    let e = entry.transform_commands();
    let f = entry.adaptive_sync_commands();
    let g = entry.tearing_commands();
    let h = entry.render_time_commands();
    let i = entry.background_commands();
    let j = entry.workspace_commands();
    assert forall|k: int| 0 <= k < j.len() implies addresses(#[trigger] j[k], name) by {
        assert(j[k] == "workspace "@ + decimal(entry.workspace as nat) + " output "@ + name);
    }
    assert forall|k: int| 0 <= k < i.len() implies addresses(#[trigger] i[k], name) by {
        let background = entry.resolved_background()->0;
        match background.wallpaper {
            Some(_) => {
                let rest = " bg "@ + entry.answers.wallpaper->0 + " "@
                    + background.mode.sway_text() + " #"@ + background.sway_color();
                assert(i[k] == output_command(name, rest));
            },
            None => {
                let rest = " bg #"@ + background.sway_color() + " solid_color"@;
                assert(i[k] == output_command(name, rest));
            },
        }
    }
    lemma_joined_addresses(a, b, name);
    lemma_joined_addresses(a + b, c, name);
    lemma_joined_addresses(a + b + c, d, name);
    lemma_joined_addresses(a + b + c + d, e, name);
    lemma_joined_addresses(a + b + c + d + e, f, name);
    lemma_joined_addresses(a + b + c + d + e + f, g, name);
    lemma_joined_addresses(a + b + c + d + e + f + g, h, name);
    lemma_joined_addresses(a + b + c + d + e + f + g + h, i, name);
    lemma_joined_addresses(a + b + c + d + e + f + g + h + i, j, name);
}

/// An output that no entry is about is left alone: every command of a plan is
/// about the output of some entry.
pub proof fn unwanted_outputs_are_untouched(
    inputs: PlanInputs,
    answers: Seq<Answers>,
    n: int,
    k: int,
)
    requires
        0 <= n <= inputs.desired.len(),
        0 <= k < inputs.plan(answers, n).commands.len(),
    ensures
        exists|i: int|
            0 <= i < n && (#[trigger] inputs.output_of(i)) is Some && addresses(
                inputs.plan(answers, n).commands[k],
                inputs.output_of(i)->0.name,
            ),
    decreases n,
{
    let before = inputs.plan(answers, n - 1).commands;
    let last = inputs.commands(n - 1, answers[n - 1]);
    assert(inputs.plan(answers, n).commands == before + last);
    if k < before.len() {
        unwanted_outputs_are_untouched(inputs, answers, n - 1, k);
    } else {
        let output = inputs.output_of(n - 1)->0;
        if inputs.desired[n - 1].enable {
            lemma_entry_addresses(inputs.entry(n - 1, answers[n - 1]));
            assert(last[k - before.len()] == (before + last)[k]);
        } else {
            assert(last[k - before.len()] == output_command(output.name, " disable"@));
        }
    }
}

/// An output is disabled only where an entry says so and it is on.
pub proof fn disabling_needs_an_active_output(inputs: PlanInputs, i: int, answers: Answers)
    requires
        0 <= i < inputs.desired.len(),
        inputs.output_of(i) is Some,
        !inputs.desired[i].enable,
    ensures
        inputs.output_of(i)->0.active ==> inputs.commands(i, answers) == seq![
            output_command(inputs.output_of(i)->0.name, " disable"@),
        ],
        !inputs.output_of(i)->0.active ==> inputs.commands(i, answers).len() == 0,
{
}

/// A second pass is quiet: where the outputs have come to report what the first
/// pass asked of them, and what it recorded is what the second pass is given,
/// no command is issued and the layout need not settle. Where no output has gone
/// since, the records and the workspaces stay as they were.
pub proof fn second_pass_is_quiet(
    first: PlanInputs,
    first_answers: Seq<Answers>,
    second: PlanInputs,
    second_answers: Seq<Answers>,
    n: int,
)
    requires
        0 <= n <= first.desired.len() < u32::MAX,
        second.desired == first.desired,
        second.presets == first.presets,
        second.applied == first.plan(first_answers, first.desired.len() as int).applied,
        distinct_outputs(first, first.desired.len() as int),
        forall|i: int|
            0 <= i < first.desired.len() && #[trigger] second.live(i) ==> first.live(i)
                && second.output_of(i)->0.name == first.output_of(i)->0.name && second.entry(
                i,
                second_answers[i],
            ).satisfied(),
        forall|i: int|
            0 <= i < first.desired.len() && (#[trigger] second.output_of(i)) is Some
                && !second.desired[i].enable ==> !second.output_of(i)->0.active,
    ensures
        second.plan(second_answers, n).commands == Seq::<Seq<char>>::empty(),
        !second.plan(second_answers, n).topology_changed,
        (forall|i: int| 0 <= i < n && #[trigger] first.live(i) ==> second.live(i)) ==> {
            &&& second.plan(second_answers, n).applied == first.plan(first_answers, n).applied
            &&& second.plan(second_answers, n).workspaces == first.plan(
                first_answers,
                n,
            ).workspaces
        },
    decreases n,
{
    if n > 0 {
        second_pass_is_quiet(first, first_answers, second, second_answers, n - 1);
        let i = n - 1;
        if second.live(i) {
            workspaces_follow_declaration_order(
                first,
                first_answers,
                first.desired.len() as int,
                i,
            );
            let entry = second.entry(i, second_answers[i]);
            assert(entry.applied == Some(entry.record()));
            satisfied_output_is_left_alone(entry);
            assert(entry.record() == first.entry(i, first_answers[i]).record());
        }
        assert(second.commands(i, second_answers[i]) =~= Seq::<Seq<char>>::empty());
        assert(second.plan(second_answers, n).commands =~= Seq::<Seq<char>>::empty());
    }
}

/// A resolver gives the same path for the same wallpaper.
pub open spec fn is_deterministic<F: Fn(&str) -> Option<String>>(resolve: F) -> bool {
    forall|id: Seq<char>, a: Option<Seq<char>>, b: Option<Seq<char>>|
        #[trigger] wallpaper_answered(resolve, id, a) && #[trigger] wallpaper_answered(
            resolve,
            id,
            b,
        ) ==> a == b
}

/// Every output that an enabled entry is about has to be switched on.
pub open spec fn all_are_off(inputs: PlanInputs) -> bool {
    forall|i: int|
        0 <= i < inputs.desired.len() && #[trigger] inputs.live(i) ==> !inputs.output_of(
            i,
        )->0.active
}

proof fn lemma_enabled_entry<F: Fn(&str) -> Option<String>, D: Fn(Real, Real) -> bool>(
    a: PlanInputs,
    b: PlanInputs,
    a_answers: Answers,
    b_answers: Answers,
    resolve: F,
    differs: D,
    i: int,
)
    requires
        b == (PlanInputs { applied: b.applied, ..a }),
        a.live(i),
        !a.output_of(i)->0.active,
        a.answered(i, a_answers, resolve, differs),
        b.answered(i, b_answers, resolve, differs),
        is_deterministic(resolve),
    ensures
        a.commands(i, a_answers) == b.commands(i, b_answers),
        a.divergences(i, a_answers) == b.divergences(i, b_answers),
        a.entry(i, a_answers).record() == b.entry(i, b_answers).record(),
{
    let x = a.entry(i, a_answers);
    let y = b.entry(i, b_answers);
    assert(x.force() && y.force());
    assert(x.wallpaper_wanted() == y.wallpaper_wanted());
    if let Some(id) = x.wallpaper_wanted() {
        assert(wallpaper_answered(resolve, id, a_answers.wallpaper));
        assert(wallpaper_answered(resolve, id, b_answers.wallpaper));
    }
    assert(x.enable_commands() == y.enable_commands());
    assert(x.mode_commands() == y.mode_commands());
    assert(x.position_commands() == y.position_commands());
    assert(x.scale_commands() == y.scale_commands());
    assert(x.transform_commands() == y.transform_commands());
    assert(x.adaptive_sync_commands() == y.adaptive_sync_commands());
    assert(x.tearing_commands() == y.tearing_commands());
    assert(x.render_time_commands() == y.render_time_commands());
    assert(x.background_commands() == y.background_commands());
    assert(x.workspace_commands() == y.workspace_commands());
    assert(x.divergences() == y.divergences());
}

proof fn lemma_enabled_plan<F: Fn(&str) -> Option<String>, D: Fn(Real, Real) -> bool>(
    a: PlanInputs,
    b: PlanInputs,
    a_answers: Seq<Answers>,
    b_answers: Seq<Answers>,
    resolve: F,
    differs: D,
    n: int,
)
    requires
        b == (PlanInputs { applied: b.applied, ..a }),
        0 <= n <= a.desired.len(),
        all_are_off(a),
        is_deterministic(resolve),
        all_answered(a, a_answers, resolve, differs),
        all_answered(b, b_answers, resolve, differs),
    ensures
        a.plan(a_answers, n) == b.plan(b_answers, n),
    decreases n,
{
    if n > 0 {
        let i = n - 1;
        lemma_enabled_plan(a, b, a_answers, b_answers, resolve, differs, i);
        assert(a.answered(i, a_answers[i], resolve, differs));
        assert(b.answered(i, b_answers[i], resolve, differs));
        assert(a.output_of(i) == b.output_of(i));
        assert(a.live(i) == b.live(i));
        if a.live(i) {
            lemma_enabled_entry(a, b, a_answers[i], b_answers[i], resolve, differs, i);
        }
    }
}

/// Re-enabling issues every setting again: where every output has to be switched
/// on, no record of an earlier pass, however stale, changes the plan.
pub proof fn stale_records_change_nothing<
    F: Fn(&str) -> Option<String>,
    D: Fn(Real, Real) -> bool,
>(a: PlanInputs, b: PlanInputs, a_plan: PlanView, b_plan: PlanView, resolve: F, differs: D)
    requires
        b == (PlanInputs { applied: b.applied, ..a }),
        all_are_off(a),
        is_deterministic(resolve),
        is_plan(a_plan, a, resolve, differs),
        is_plan(b_plan, b, resolve, differs),
    ensures
        a_plan == b_plan,
{
    let n = a.desired.len() as int;
    let a_answers = choose|answers: Seq<Answers>|
        #[trigger] all_answered(a, answers, resolve, differs) && a_plan == a.plan(answers, n);
    let b_answers = choose|answers: Seq<Answers>|
        #[trigger] all_answered(b, answers, resolve, differs) && b_plan == b.plan(answers, n);
    lemma_enabled_plan(a, b, a_answers, b_answers, resolve, differs, n);
}

/// A divergence of one entry stops no other: each entry adds its own commands
/// after those of the entries before it.
pub proof fn entries_are_planned_in_order(
    inputs: PlanInputs,
    answers: Seq<Answers>,
    m: int,
    n: int,
)
    requires
        0 <= m <= n <= inputs.desired.len(),
    ensures
        inputs.plan(answers, m).commands.is_prefix_of(inputs.plan(answers, n).commands),
        inputs.plan(answers, m).divergences.is_prefix_of(inputs.plan(answers, n).divergences),
    decreases n - m,
{
    if m < n {
        entries_are_planned_in_order(inputs, answers, m, n - 1);
        let a = inputs.plan(answers, m).commands;
        let b = inputs.plan(answers, n - 1).commands;
        let c = inputs.plan(answers, n).commands;
        assert(c == b + inputs.commands(n - 1, answers[n - 1]));
        assert(a =~= c.subrange(0, a.len() as int)) by {
            assert(a =~= b.subrange(0, a.len() as int));
        }
        let d = inputs.plan(answers, m).divergences;
        let e = inputs.plan(answers, n - 1).divergences;
        let f = inputs.plan(answers, n).divergences;
        assert(f == e + inputs.divergences(n - 1, answers[n - 1]));
        assert(d =~= f.subrange(0, d.len() as int)) by {
            assert(d =~= e.subrange(0, d.len() as int));
        }
    }
}

/// A window is given at most one fullscreen command, and spanning wins over
/// filling one output.
pub proof fn spanning_wins(window_id: i64, workspace: Option<u32>, fullscreen: bool)
    ensures
        (move_commands(window_id, workspace) + fullscreen_commands(
            window_id,
            fullscreen,
            true,
        )).last() == window_command(window_id, "] fullscreen enable global"@),
        fullscreen_commands(window_id, fullscreen, true).len() == 1,
        fullscreen_commands(window_id, fullscreen, false).len() <= 1,
        move_commands(window_id, None) == Seq::<Seq<char>>::empty(),
{
}

/// An app is blocked exactly where it pins an output that is not live; a
/// blocked app is given no workspace.
pub proof fn app_is_blocked_without_its_output(
    app: AppView,
    observed: Seq<OutputView>,
    workspaces: Map<Seq<char>, u32>,
)
    ensures
        app_target(app, observed, workspaces).blocked is Some <==> app.output is Some && (
        first_match(observed, app.output->0) is None || !workspaces.dom().contains(
            first_match(observed, app.output->0)->0.name,
        )),
        app_target(app, observed, workspaces).blocked is Some ==> app_target(
            app,
            observed,
            workspaces,
        ).workspace is None,
{
}

} // verus!
