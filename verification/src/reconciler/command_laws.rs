//! What the compositor is told, word for word.
use crate::config::{AppView, Divergence, DivergenceView, OutputConfig, ScaleView};
use crate::model::{
    first_match, nearest_mode, BackgroundPreset, BackgroundView, Mode, Output, OutputView, Position,
    Real, Transform,
};
use crate::model_laws::nearest_mode_is_the_nearest;
use crate::names::NameMap;
use crate::reconciler::plan::{
    all_answered, answered_without_wallpapers, app_target, app_targets, background_outcome,
    bare_plan_inputs, debug_text, fullscreen_commands, fullscreen_mode, is_plan, move_commands,
    parking_commands, placement, plan_inputs, Answers, AppliedOutput, Capabilities, Entry,
    PlanInputs, PlanView,
};
use crate::text::{decimal, decimal_int};
use crate::text_laws::pairs_read_back;
use vstd::prelude::*;
use vstd::string::*;

verus! {

/// An output was off or has not been told anything yet, so it is told everything.
pub open spec fn is_fresh(entry: Entry) -> bool {
    !entry.output.active || entry.applied is None
}

/// How often something is said that is said only where it is needed.
pub open spec fn once_if(needed: bool) -> int {
    if needed {
        1
    } else {
        0
    }
}

proof fn lemma_parts(entry: Entry)
    ensures
        forall|c: Seq<char>| #[trigger]
            entry.enable_commands().contains(c) ==> entry.commands().contains(c),
        forall|c: Seq<char>| #[trigger]
            entry.mode_commands().contains(c) ==> entry.commands().contains(c),
        forall|c: Seq<char>| #[trigger]
            entry.position_commands().contains(c) ==> entry.commands().contains(c),
        forall|c: Seq<char>| #[trigger]
            entry.scale_commands().contains(c) ==> entry.commands().contains(c),
        forall|c: Seq<char>| #[trigger]
            entry.transform_commands().contains(c) ==> entry.commands().contains(c),
        forall|c: Seq<char>| #[trigger]
            entry.adaptive_sync_commands().contains(c) ==> entry.commands().contains(c),
        forall|c: Seq<char>| #[trigger]
            entry.tearing_commands().contains(c) ==> entry.commands().contains(c),
        forall|c: Seq<char>| #[trigger]
            entry.render_time_commands().contains(c) ==> entry.commands().contains(c),
        forall|c: Seq<char>| #[trigger]
            entry.background_commands().contains(c) ==> entry.commands().contains(c),
        forall|c: Seq<char>| #[trigger]
            entry.workspace_commands().contains(c) ==> entry.commands().contains(c),
{
    lemma_sums(
        entry.enable_commands(),
        entry.mode_commands(),
        entry.position_commands(),
        entry.scale_commands(),
        entry.transform_commands(),
        entry.adaptive_sync_commands(),
        entry.tearing_commands(),
        entry.render_time_commands(),
        entry.background_commands(),
        entry.workspace_commands(),
    );
}

proof fn lemma_sums<T>(
    a: Seq<T>,
    b: Seq<T>,
    c: Seq<T>,
    d: Seq<T>,
    e: Seq<T>,
    f: Seq<T>,
    g: Seq<T>,
    h: Seq<T>,
    i: Seq<T>,
    j: Seq<T>,
)
    ensures
        forall|x: T| #[trigger]
            a.contains(x) ==> (a + b + c + d + e + f + g + h + i + j).contains(x),
        forall|x: T| #[trigger]
            b.contains(x) ==> (a + b + c + d + e + f + g + h + i + j).contains(x),
        forall|x: T| #[trigger]
            c.contains(x) ==> (a + b + c + d + e + f + g + h + i + j).contains(x),
        forall|x: T| #[trigger]
            d.contains(x) ==> (a + b + c + d + e + f + g + h + i + j).contains(x),
        forall|x: T| #[trigger]
            e.contains(x) ==> (a + b + c + d + e + f + g + h + i + j).contains(x),
        forall|x: T| #[trigger]
            f.contains(x) ==> (a + b + c + d + e + f + g + h + i + j).contains(x),
        forall|x: T| #[trigger]
            g.contains(x) ==> (a + b + c + d + e + f + g + h + i + j).contains(x),
        forall|x: T| #[trigger]
            h.contains(x) ==> (a + b + c + d + e + f + g + h + i + j).contains(x),
        forall|x: T| #[trigger]
            i.contains(x) ==> (a + b + c + d + e + f + g + h + i + j).contains(x),
        forall|x: T| #[trigger]
            j.contains(x) ==> (a + b + c + d + e + f + g + h + i + j).contains(x),
{
    lemma_sum(a, b);
    lemma_sum(a + b, c);
    lemma_sum(a + b + c, d);
    lemma_sum(a + b + c + d, e);
    lemma_sum(a + b + c + d + e, f);
    lemma_sum(a + b + c + d + e + f, g);
    lemma_sum(a + b + c + d + e + f + g, h);
    lemma_sum(a + b + c + d + e + f + g + h, i);
    lemma_sum(a + b + c + d + e + f + g + h + i, j);
}

proof fn lemma_sum<T>(a: Seq<T>, b: Seq<T>)
    ensures
        forall|x: T| #[trigger] a.contains(x) ==> (a + b).contains(x),
        forall|x: T| #[trigger] b.contains(x) ==> (a + b).contains(x),
{
    assert forall|x: T| #[trigger] a.contains(x) implies (a + b).contains(x) by {
        let k = choose|k: int| 0 <= k < a.len() && a[k] == x;
        assert((a + b)[k] == x);
    }
    assert forall|x: T| #[trigger] b.contains(x) implies (a + b).contains(x) by {
        let k = choose|k: int| 0 <= k < b.len() && b[k] == x;
        assert((a + b)[a.len() + k] == x);
    }
}

proof fn lemma_single(text: Seq<char>)
    ensures
        seq![text].contains(text),
{
    assert(seq![text][0] == text);
}

/// An output with a place that was off, has been told nothing yet, or is not at that
/// place, is told `output NAME pos X Y`, with its own name and the coordinates in
/// decimal, first the one across and then the one down.
pub proof fn outputs_are_told_their_place(entry: Entry, position: Position)
    requires
        entry.config.position == Some(position),
    ensures
        ({
            let told = "output "@ + entry.output.name + (" pos "@ + decimal_int(position.x as int)
                + " "@ + decimal_int(position.y as int));
            let due = !entry.output.active || entry.applied is None || entry.output.rect.x
                != position.x || entry.output.rect.y != position.y;
            &&& due ==> entry.position_commands() == seq![told]
            &&& due ==> entry.commands().contains(told)
            &&& !due ==> entry.position_commands() == Seq::<Seq<char>>::empty()
        }),
{
    lemma_parts(entry);
    let told = "output "@ + entry.output.name + (" pos "@ + decimal_int(position.x as int) + " "@
        + decimal_int(position.y as int));
    lemma_single(told);
}

/// An output without a place is told none.
pub proof fn outputs_without_a_place_are_told_none(entry: Entry)
    requires
        entry.config.position is None,
    ensures
        entry.position_commands() == Seq::<Seq<char>>::empty(),
{
}

/// Two places are told in different words: what was told can be read back.
pub proof fn different_places_are_told_apart(a: Entry, b: Entry)
    requires
        is_fresh(a),
        is_fresh(b),
        a.output.name == b.output.name,
        a.config.position is Some,
        b.config.position is Some,
        a.position_commands() == b.position_commands(),
    ensures
        a.config.position->0.x == b.config.position->0.x,
        a.config.position->0.y == b.config.position->0.y,
{
    let p = a.config.position->0;
    let q = b.config.position->0;
    outputs_are_told_their_place(a, p);
    outputs_are_told_their_place(b, q);
    let lead = "output "@ + a.output.name;
    let said = " pos "@ + decimal_int(p.x as int) + " "@ + decimal_int(p.y as int);
    let other = " pos "@ + decimal_int(q.x as int) + " "@ + decimal_int(q.y as int);
    assert(a.position_commands()[0] == lead + said);
    assert(b.position_commands()[0] == lead + other);
    assert((lead + said).subrange(lead.len() as int, (lead + said).len() as int) =~= said);
    assert((lead + other).subrange(lead.len() as int, (lead + other).len() as int) =~= other);
    let n = " pos "@.len() as int;
    assert(said.subrange(n, said.len() as int) =~= decimal_int(p.x as int) + " "@ + decimal_int(
        p.y as int,
    ));
    assert(other.subrange(n, other.len() as int) =~= decimal_int(q.x as int) + " "@ + decimal_int(
        q.y as int,
    ));
    pairs_read_back(p.x as int, p.y as int, q.x as int, q.y as int);
}

/// An output is told the mode that was asked for where it advertises none, and
/// otherwise the nearest that it advertises, unless it already runs it: `output NAME
/// mode WxH@RHz`.
pub proof fn outputs_are_told_their_mode(entry: Entry, wanted: Mode, target: Mode)
    requires
        entry.config.mode == Some(wanted),
        entry.output.modes.len() == 0 ==> target == wanted,
        entry.output.modes.len() > 0 ==> nearest_mode(entry.output.modes, wanted) == Some(target),
    ensures
        ({
            let told = "output "@ + entry.output.name + (" mode "@ + target.sway_text());
            let due = is_fresh(entry) || entry.output.current_mode != Some(target);
            &&& due ==> entry.mode_commands() == seq![told] && entry.commands().contains(told)
            &&& !due ==> entry.mode_commands() == Seq::<Seq<char>>::empty()
            &&& entry.mode_divergences() == Seq::<DivergenceView>::empty()
        }),
{
    lemma_parts(entry);
    lemma_single("output "@ + entry.output.name + (" mode "@ + target.sway_text()));
}

/// An output that advertises modes but none of the size that was asked for is told no
/// mode, and that is reported under its name.
pub proof fn unknown_modes_are_reported(entry: Entry, wanted: Mode)
    requires
        entry.config.mode == Some(wanted),
        entry.output.modes.len() > 0,
        forall|i: int|
            0 <= i < entry.output.modes.len() ==> (#[trigger] entry.output.modes[i]).width
                != wanted.width || entry.output.modes[i].height != wanted.height,
    ensures
        entry.mode_commands() == Seq::<Seq<char>>::empty(),
        entry.divergences().len() > 0,
        entry.divergences()[0] == (DivergenceView {
            kind: "mode_unsupported"@,
            subject: entry.output.name,
            detail: entry.output.name + " does not advertise mode "@ + wanted.sway_text(),
            docs_url: None,
        }),
{
    nearest_mode_is_the_nearest(entry.output.modes, wanted);
}

/// An output with a scale is told it as it was written down, where it was off, has
/// been told nothing yet, reports none or runs another.
pub proof fn outputs_are_told_their_scale(entry: Entry)
    requires
        entry.config.scale is Some,
    ensures
        ({
            let told = "output "@ + entry.output.name + (" scale "@ + entry.config.scale->0.text);
            let due = is_fresh(entry) || entry.output.scale is None || entry.answers.scale_differs;
            &&& due ==> entry.scale_commands() == seq![told] && entry.commands().contains(told)
            &&& !due ==> entry.scale_commands() == Seq::<Seq<char>>::empty()
        }),
{
    lemma_parts(entry);
    lemma_single("output "@ + entry.output.name + (" scale "@ + entry.config.scale->0.text));
}

/// An output is told how it is turned, unless it reports being turned so.
pub proof fn outputs_are_told_their_turn(entry: Entry, transform: Transform)
    requires
        entry.config.transform == Some(transform),
    ensures
        ({
            let told = "output "@ + entry.output.name + (" transform "@ + transform.sway_text());
            let due = is_fresh(entry) || entry.output.transform != Some(transform.sway_text());
            &&& due ==> entry.transform_commands() == seq![told] && entry.commands().contains(told)
            &&& !due ==> entry.transform_commands() == Seq::<Seq<char>>::empty()
        }),
{
    lemma_parts(entry);
    lemma_single("output "@ + entry.output.name + (" transform "@ + transform.sway_text()));
}

/// Adaptive sync is switched on where it is asked for and off where it is not, unless
/// the output reports that it is so already.
pub proof fn outputs_are_told_about_adaptive_sync(entry: Entry)
    ensures
        ({
            let on = "output "@ + entry.output.name + (" adaptive_sync "@ + "on"@);
            let off = "output "@ + entry.output.name + (" adaptive_sync "@ + "off"@);
            let is_on = entry.output.adaptive_sync_status == Some("enabled"@);
            let is_off = entry.output.adaptive_sync_status is Some && !is_on;
            &&& entry.config.adaptive_sync && (is_fresh(entry) || !is_on)
                ==> entry.adaptive_sync_commands() == seq![on] && entry.commands().contains(on)
            &&& !entry.config.adaptive_sync && (is_fresh(entry) || !is_off)
                ==> entry.adaptive_sync_commands() == seq![off] && entry.commands().contains(off)
            &&& entry.config.adaptive_sync && !is_fresh(entry) && is_on
                ==> entry.adaptive_sync_commands() == Seq::<Seq<char>>::empty()
            &&& !entry.config.adaptive_sync && !is_fresh(entry) && is_off
                ==> entry.adaptive_sync_commands() == Seq::<Seq<char>>::empty()
        }),
{
    lemma_parts(entry);
    lemma_single("output "@ + entry.output.name + (" adaptive_sync "@ + "on"@));
    lemma_single("output "@ + entry.output.name + (" adaptive_sync "@ + "off"@));
    let status = entry.output.adaptive_sync_status;
    if status is Some && status->0 =~= "enabled"@ {
        assert(status == Some("enabled"@));
    }
}

/// Tearing is allowed or forbidden as asked, where that changed or the output has to
/// be told everything; a compositor that cannot is never told, and asking for it is
/// then reported.
pub proof fn outputs_are_told_about_tearing(entry: Entry)
    ensures
        ({
            let yes = "output "@ + entry.output.name + (" allow_tearing "@ + "yes"@);
            let no = "output "@ + entry.output.name + (" allow_tearing "@ + "no"@);
            let can = entry.capabilities.supports_tearing;
            let due = is_fresh(entry) || entry.applied->0.config.allow_tearing
                != entry.config.allow_tearing;
            &&& can && due && entry.config.allow_tearing ==> entry.tearing_commands() == seq![yes]
                && entry.commands().contains(yes)
            &&& can && due && !entry.config.allow_tearing ==> entry.tearing_commands() == seq![no]
                && entry.commands().contains(no)
            &&& !can || !due ==> entry.tearing_commands() == Seq::<Seq<char>>::empty()
            &&& !can && entry.config.allow_tearing ==> entry.tearing_divergences() == seq![
                DivergenceView {
                    kind: "tearing_unsupported"@,
                    subject: entry.output.name,
                    detail: "this sway version does not support tearing control (needs 1.10 or newer)"@,
                    docs_url: None,
                },
            ]
            &&& can || !entry.config.allow_tearing ==> entry.tearing_divergences() == Seq::<
                DivergenceView,
            >::empty()
        }),
{
    lemma_parts(entry);
    lemma_single("output "@ + entry.output.name + (" allow_tearing "@ + "yes"@));
    lemma_single("output "@ + entry.output.name + (" allow_tearing "@ + "no"@));
}

/// An output is told how many milliseconds drawing may take, or that there is no
/// limit, where that changed or the output has to be told everything.
pub proof fn outputs_are_told_their_render_time(entry: Entry)
    ensures
        ({
            let lead = "output "@ + entry.output.name;
            let due = is_fresh(entry) || entry.applied->0.config.max_render_time_ms
                != entry.config.max_render_time_ms;
            &&& due && entry.config.max_render_time_ms is None ==> entry.render_time_commands()
                == seq![lead + (" max_render_time "@ + "off"@)] && entry.commands().contains(
                lead + (" max_render_time "@ + "off"@),
            )
            &&& due && entry.config.max_render_time_ms is Some ==> entry.render_time_commands()
                == seq![
                lead + (" max_render_time "@ + decimal(
                    entry.config.max_render_time_ms->0 as nat,
                )),
            ] && entry.commands().contains(
                lead + (" max_render_time "@ + decimal(
                    entry.config.max_render_time_ms->0 as nat,
                )),
            )
            &&& !due ==> entry.render_time_commands() == Seq::<Seq<char>>::empty()
        }),
{
    lemma_parts(entry);
    let lead = "output "@ + entry.output.name;
    lemma_single(lead + (" max_render_time "@ + "off"@));
    lemma_single(
        lead + (" max_render_time "@ + decimal(entry.config.max_render_time_ms->0 as nat)),
    );
}

/// An output is told which workspace it shows, where that changed or the output has
/// to be told everything, and nothing comes after that.
pub proof fn outputs_are_told_their_workspace(entry: Entry)
    ensures
        ({
            let told = "workspace "@ + decimal(entry.workspace as nat) + " output "@
                + entry.output.name;
            let due = is_fresh(entry) || entry.applied->0.workspace != entry.workspace;
            &&& due ==> entry.workspace_commands() == seq![told] && entry.commands().len() > 0
                && entry.commands().last() == told
            &&& !due ==> entry.workspace_commands() == Seq::<Seq<char>>::empty()
        }),
{
}

/// An output that is off is switched on before anything else is said.
pub proof fn outputs_are_switched_on_first(entry: Entry)
    ensures
        !entry.output.active ==> entry.enable_commands() == seq![
            "output "@ + entry.output.name + " enable"@,
        ] && entry.commands().len() > 0 && entry.commands()[0] == "output "@ + entry.output.name
            + " enable"@,
        entry.output.active ==> entry.enable_commands() == Seq::<Seq<char>>::empty(),
{
}

/// An output is painted with a plain color where its background names no picture.
pub proof fn outputs_are_painted_with_a_color(entry: Entry, background: BackgroundView)
    requires
        entry.config.background is Some,
        entry.config.background->0.resolve(entry.presets) == Some(background),
        background.wallpaper is None,
    ensures
        ({
            let told = "output "@ + entry.output.name + (" bg #"@ + background.sway_color()
                + " solid_color"@);
            let due = is_fresh(entry) || entry.applied->0.background != Some(background);
            &&& due ==> entry.background_commands() == seq![told] && entry.commands().contains(told)
            &&& !due ==> entry.background_commands() == Seq::<Seq<char>>::empty()
            &&& entry.background_divergences() == Seq::<DivergenceView>::empty()
        }),
{
    lemma_parts(entry);
    lemma_single(
        "output "@ + entry.output.name + (" bg #"@ + background.sway_color() + " solid_color"@),
    );
}

/// An output is painted with the stored picture that its background names, scaled as
/// asked, over its color; a picture that is not stored is reported instead.
pub proof fn outputs_are_painted_with_a_picture(
    entry: Entry,
    background: BackgroundView,
    id: Seq<char>,
)
    requires
        entry.config.background is Some,
        entry.config.background->0.resolve(entry.presets) == Some(background),
        background.wallpaper == Some(id),
    ensures
        ({
            let due = is_fresh(entry) || entry.applied->0.background != Some(background);
            let found = entry.answers.wallpaper is Some;
            let told = "output "@ + entry.output.name + (" bg "@ + entry.answers.wallpaper->0
                + " "@ + background.mode.sway_text() + " #"@ + background.sway_color());
            &&& due && found ==> entry.background_commands() == seq![told]
                && entry.commands().contains(told) && entry.background_divergences() == Seq::<
                DivergenceView,
            >::empty()
            &&& due && !found ==> entry.background_commands() == Seq::<Seq<char>>::empty()
                && entry.background_divergences() == seq![
                DivergenceView {
                    kind: "wallpaper_not_found"@,
                    subject: entry.output.name,
                    detail: entry.output.name + " refers to wallpaper "@ + debug_text(id)
                        + ", which is not stored"@,
                    docs_url: None,
                },
            ]
            &&& !due ==> entry.background_commands() == Seq::<Seq<char>>::empty()
                && entry.background_divergences() == Seq::<DivergenceView>::empty()
        }),
{
    lemma_parts(entry);
    lemma_single(
        "output "@ + entry.output.name + (" bg "@ + entry.answers.wallpaper->0 + " "@
            + background.mode.sway_text() + " #"@ + background.sway_color()),
    );
}

/// A background that refers to no preset there is is reported, and nothing is
/// painted.
pub proof fn unknown_presets_are_reported(entry: Entry)
    requires
        entry.config.background is Some,
        entry.config.background->0.resolve(entry.presets) is None,
    ensures
        entry.background_commands() == Seq::<Seq<char>>::empty(),
        entry.background_divergences() == seq![
            DivergenceView {
                kind: "background_preset_not_found"@,
                subject: entry.output.name,
                detail: entry.output.name + " refers to background preset "@ + debug_text(
                    entry.config.background->0.preset_id(),
                ) + ", which is not defined"@,
                docs_url: None,
            },
        ],
{
}

/// Nothing is said twice and nothing is said that is not needed: there are as many
/// commands as there are things to say.
pub proof fn nothing_more_is_said(entry: Entry)
    ensures
        entry.commands().len() == entry.enable_commands().len() + entry.mode_commands().len()
            + entry.position_commands().len() + entry.scale_commands().len()
            + entry.transform_commands().len() + entry.adaptive_sync_commands().len()
            + entry.tearing_commands().len() + entry.render_time_commands().len()
            + entry.background_commands().len() + entry.workspace_commands().len(),
        entry.config.mode is None ==> entry.mode_commands().len() == 0,
        entry.config.scale is None ==> entry.scale_commands().len() == 0,
        entry.config.transform is None ==> entry.transform_commands().len() == 0,
        entry.config.background is None ==> entry.background_commands().len() == 0
            && entry.background_divergences().len() == 0,
        entry.config.mode is None ==> entry.mode_divergences().len() == 0,
        entry.divergences().len() == entry.mode_divergences().len()
            + entry.tearing_divergences().len() + entry.background_divergences().len(),
{
}

/// An output that was off and for which everything is asked is told all of it, in
/// this order.
pub proof fn fresh_outputs_are_told_everything_in_order(
    entry: Entry,
    mode: Mode,
    position: Position,
    transform: Transform,
    background: BackgroundView,
    render_time: u32,
)
    requires
        !entry.output.active,
        entry.output.modes.len() == 0,
        entry.config.mode == Some(mode),
        entry.config.position == Some(position),
        entry.config.scale is Some,
        entry.config.transform == Some(transform),
        entry.capabilities.supports_tearing,
        entry.config.max_render_time_ms == Some(render_time),
        entry.config.background is Some,
        entry.config.background->0.resolve(entry.presets) == Some(background),
        background.wallpaper is None,
    ensures
        ({
            let lead = "output "@ + entry.output.name;
            entry.commands() == seq![
                lead + " enable"@,
                lead + (" mode "@ + mode.sway_text()),
                lead + (" pos "@ + decimal_int(position.x as int) + " "@ + decimal_int(
                    position.y as int,
                )),
                lead + (" scale "@ + entry.config.scale->0.text),
                lead + (" transform "@ + transform.sway_text()),
                lead + (" adaptive_sync "@ + (if entry.config.adaptive_sync {
                    "on"@
                } else {
                    "off"@
                })),
                lead + (" allow_tearing "@ + (if entry.config.allow_tearing {
                    "yes"@
                } else {
                    "no"@
                })),
                lead + (" max_render_time "@ + decimal(render_time as nat)),
                lead + (" bg #"@ + background.sway_color() + " solid_color"@),
                "workspace "@ + decimal(entry.workspace as nat) + " output "@ + entry.output.name,
            ]
        }),
{
}

/// What is kept of an output for the next time is what was asked for: the settings,
/// the workspace and the background as it was found.
pub proof fn what_was_told_is_kept(entry: Entry)
    ensures
        entry.record().config == entry.config,
        entry.record().workspace == entry.workspace,
        entry.config.background is None ==> entry.record().background is None,
        entry.config.background is Some ==> entry.record().background
            == entry.config.background->0.resolve(entry.presets),
{
}

/// What an output has to be told is in the plan.
pub proof fn plans_say_what_each_output_needs(
    inputs: PlanInputs,
    answers: Seq<Answers>,
    n: int,
    i: int,
    command: Seq<char>,
)
    requires
        0 <= i < n <= inputs.desired.len(),
        inputs.commands(i, answers[i]).contains(command),
    ensures
        inputs.plan(answers, n).commands.contains(command),
    decreases n,
{
    let before = inputs.plan(answers, n - 1).commands;
    let own = inputs.commands(n - 1, answers[n - 1]);
    if i == n - 1 {
        let k = choose|k: int| 0 <= k < own.len() && own[k] == command;
        assert((before + own)[before.len() + k] == command);
    } else {
        plans_say_what_each_output_needs(inputs, answers, n - 1, i, command);
        let k = choose|k: int| 0 <= k < before.len() && before[k] == command;
        assert((before + own)[k] == command);
    }
}

/// The plan tells every wanted display that is there its place, in these words, where
/// it was off, has not been told anything, or lies elsewhere.
pub proof fn plans_place_every_output(
    inputs: PlanInputs,
    answers: Seq<Answers>,
    n: int,
    i: int,
    output: OutputView,
    position: Position,
)
    requires
        0 <= i < n <= inputs.desired.len(),
        first_match(inputs.observed, inputs.desired[i].matching) == Some(output),
        inputs.desired[i].enable,
        inputs.desired[i].position == Some(position),
        !output.active || !inputs.applied.dom().contains(output.name) || output.rect.x != position.x
            || output.rect.y != position.y,
    ensures
        inputs.plan(answers, n).commands.contains(
            "output "@ + output.name + (" pos "@ + decimal_int(position.x as int) + " "@
                + decimal_int(position.y as int)),
        ),
{
    outputs_are_told_their_place(inputs.entry(i, answers[i]), position);
    plans_say_what_each_output_needs(
        inputs,
        answers,
        n,
        i,
        "output "@ + output.name + (" pos "@ + decimal_int(position.x as int) + " "@ + decimal_int(
            position.y as int,
        )),
    );
}

/// The plan switches off every display that is there, on, and not wanted.
pub proof fn plans_switch_unwanted_outputs_off(
    inputs: PlanInputs,
    answers: Seq<Answers>,
    n: int,
    i: int,
    output: OutputView,
)
    requires
        0 <= i < n <= inputs.desired.len(),
        first_match(inputs.observed, inputs.desired[i].matching) == Some(output),
        !inputs.desired[i].enable,
        output.active,
    ensures
        inputs.plan(answers, n).commands.contains("output "@ + output.name + " disable"@),
        inputs.divergences(i, answers[i]).len() == 0,
{
    lemma_single("output "@ + output.name + " disable"@);
    plans_say_what_each_output_needs(
        inputs,
        answers,
        n,
        i,
        "output "@ + output.name + " disable"@,
    );
}

/// Each wanted display that is there is told about as itself: its own settings, what
/// was told it before, and the workspace of its number in the list, counted from one.
pub proof fn each_output_is_told_about_itself(inputs: PlanInputs, i: int, answers: Answers)
    requires
        0 <= i < inputs.desired.len() < u32::MAX,
        inputs.live(i),
    ensures
        inputs.desired[i].enable,
        Some(inputs.entry(i, answers).output) == first_match(
            inputs.observed,
            inputs.desired[i].matching,
        ),
        inputs.entry(i, answers).config == inputs.desired[i],
        inputs.entry(i, answers).workspace == i + 1,
        inputs.entry(i, answers).presets == inputs.presets,
        inputs.entry(i, answers).capabilities == inputs.capabilities,
        inputs.entry(i, answers).applied is Some <==> inputs.applied.dom().contains(
            inputs.entry(i, answers).output.name,
        ),
        inputs.entry(i, answers).applied is Some ==> inputs.entry(i, answers).applied->0
            == inputs.applied[inputs.entry(i, answers).output.name],
        inputs.commands(i, answers) == inputs.entry(i, answers).commands(),
        inputs.divergences(i, answers) == inputs.entry(i, answers).divergences(),
{
}

/// A rule that finds no display is reported under what the rule is called, and told
/// nothing.
pub proof fn missing_outputs_are_reported(inputs: PlanInputs, i: int, answers: Answers)
    requires
        0 <= i < inputs.desired.len(),
        first_match(inputs.observed, inputs.desired[i].matching) is None,
    ensures
        inputs.commands(i, answers) == Seq::<Seq<char>>::empty(),
        inputs.divergences(i, answers) == seq![
            DivergenceView {
                kind: "output_not_connected"@,
                subject: inputs.desired[i].matching.key(),
                detail: "no connected output matches "@ + inputs.desired[i].matching.key(),
                docs_url: None,
            },
        ],
{
}

/// The layout has to settle exactly where some display is switched on or off.
pub proof fn layout_settles_after_switching(
    inputs: PlanInputs,
    answers: Seq<Answers>,
    n: int,
)
    requires
        0 <= n <= inputs.desired.len(),
    ensures
        inputs.plan(answers, n).topology_changed <==> exists|i: int|
            0 <= i < n && first_match(
                inputs.observed,
                (#[trigger] inputs.desired[i]).matching,
            ) is Some && first_match(inputs.observed, inputs.desired[i].matching)->0.active
                != inputs.desired[i].enable,
    decreases n,
{
    if n > 0 {
        layout_settles_after_switching(inputs, answers, n - 1);
        let last = inputs.desired[n - 1];
        if inputs.plan(answers, n - 1).topology_changed {
            let i = choose|i: int|
                0 <= i < n - 1 && first_match(
                    inputs.observed,
                    (#[trigger] inputs.desired[i]).matching,
                ) is Some && first_match(inputs.observed, inputs.desired[i].matching)->0.active
                    != inputs.desired[i].enable;
            assert(0 <= i < n && inputs.desired[i].enable == inputs.desired[i].enable);
        }
    }
}

/// A program that names a display runs there, on the workspace of that display, where
/// the display is connected and in use, and otherwise waits for the reason given; a
/// program that names none runs anywhere.
pub proof fn programs_run_where_they_belong(
    app: AppView,
    observed: Seq<OutputView>,
    workspaces: Map<Seq<char>, u32>,
)
    ensures
        ({
            let target = app_target(app, observed, workspaces);
            let found = first_match(observed, app.output->0);
            &&& target.id == app.id
            &&& app.output is None ==> target.output is None && target.workspace is None
                && target.blocked is None
            &&& app.output is Some && found is None ==> target.output is None
                && target.workspace is None && target.blocked == Some(
                DivergenceView {
                    kind: "app_waiting_for_output"@,
                    subject: app.id,
                    detail: app.id + " targets "@ + app.output->0.key()
                        + ", which is not connected"@,
                    docs_url: None,
                },
            )
            &&& app.output is Some && found is Some && workspaces.dom().contains(found->0.name)
                ==> target.output == Some(found->0.name) && target.workspace == Some(
                workspaces[found->0.name],
            ) && target.blocked is None
            &&& app.output is Some && found is Some && !workspaces.dom().contains(found->0.name)
                ==> target.output == Some(found->0.name) && target.workspace is None
                && target.blocked == Some(
                DivergenceView {
                    kind: "app_output_disabled"@,
                    subject: app.id,
                    detail: app.id + " targets "@ + found->0.name
                        + ", which is connected but not enabled"@,
                    docs_url: None,
                },
            )
        }),
{
}

/// Every program that is enabled gets its own target, in order, and no other does.
pub proof fn enabled_programs_get_a_target(
    apps: Seq<AppView>,
    observed: Seq<OutputView>,
    workspaces: Map<Seq<char>, u32>,
    n: int,
    i: int,
) -> (k: int)
    requires
        0 <= i < n <= apps.len(),
    ensures
        apps[i].enabled ==> 0 <= k < app_targets(apps, observed, workspaces, n).len()
            && app_targets(apps, observed, workspaces, n)[k] == app_target(
            apps[i],
            observed,
            workspaces,
        ),
        app_targets(apps, observed, workspaces, n).len() == app_targets(
            apps,
            observed,
            workspaces,
            n - 1,
        ).len() + once_if(apps[n - 1].enabled),
    decreases n,
{
    let before = app_targets(apps, observed, workspaces, n - 1);
    if i == n - 1 {
        before.len() as int
    } else {
        let k = enabled_programs_get_a_target(apps, observed, workspaces, n - 1, i);
        if apps[i].enabled {
            assert(app_targets(apps, observed, workspaces, n)[k] == before[k]);
        }
        k
    }
}

/// A window is moved by its number to the workspace of a number, and shown over the
/// whole of its output, or of all outputs, in these words.
pub proof fn windows_are_moved_and_filled(
    window_id: i64,
    workspace: u32,
    fullscreen: bool,
)
    ensures
        move_commands(window_id, Some(workspace)) == seq![
            "[con_id="@ + decimal_int(window_id as int) + ("] move container to workspace number "@
                + decimal(workspace as nat)),
        ],
        move_commands(window_id, None) == Seq::<Seq<char>>::empty(),
        fullscreen_commands(window_id, fullscreen, true) == seq![
            "[con_id="@ + decimal_int(window_id as int) + "] fullscreen enable global"@,
        ],
        fullscreen_commands(window_id, true, false) == seq![
            "[con_id="@ + decimal_int(window_id as int) + "] fullscreen enable"@,
        ],
        fullscreen_commands(window_id, false, false) == Seq::<Seq<char>>::empty(),
{
}

/// The pointer is hidden and parked 24 below the layout, in these words.
pub proof fn pointers_are_parked_below(layout_height: int)
    ensures
        parking_commands(layout_height).len() == 2,
        parking_commands(layout_height)[0] == "seat seat0 hide_cursor 1000"@,
        parking_commands(layout_height)[1] == "seat seat0 cursor set 0 "@ + decimal_int(
            layout_height + 24,
        ),
{
}

/// A window over all outputs is reported as 2, over its own as 1, and any other as 0; and
/// it is told to be so exactly where that is above 0.
pub proof fn windows_are_reported_by_number(window_id: i64, fullscreen: bool, span_outputs: bool)
    ensures
        span_outputs ==> fullscreen_mode(fullscreen, span_outputs) == 2,
        !span_outputs && fullscreen ==> fullscreen_mode(fullscreen, span_outputs) == 1,
        !span_outputs && !fullscreen ==> fullscreen_mode(fullscreen, span_outputs) == 0,
        fullscreen_commands(window_id, fullscreen, span_outputs).len() > 0 <==> fullscreen_mode(
            fullscreen,
            span_outputs,
        ) > 0,
{
}

/// Whether a scale has to be told is asked of the comparison, with the scale that the
/// display runs and the one that is wanted: where it says that they differ, the scale is
/// told, and where it says that they do not, and nothing else calls for it, it is not.
pub proof fn scales_are_told_where_they_differ<
    F: Fn(&str) -> Option<String>,
    D: Fn(Real, Real) -> bool,
>(
    inputs: PlanInputs,
    answers: Seq<Answers>,
    resolve: F,
    differs: D,
    i: int,
    running: Real,
    wanted: ScaleView,
)
    requires
        all_answered(inputs, answers, resolve, differs),
        0 <= i < inputs.desired.len(),
        inputs.live(i),
        inputs.output_of(i)->0.scale == Some(running),
        inputs.desired[i].scale == Some(wanted),
    ensures
        (forall|said: bool| call_ensures(differs, (running, wanted.value), said) ==> said)
            ==> inputs.entry(i, answers[i]).scale_commands() == seq![
            "output "@ + inputs.output_of(i)->0.name + (" scale "@ + wanted.text),
        ],
        (forall|said: bool| call_ensures(differs, (running, wanted.value), said) ==> !said)
            && !is_fresh(inputs.entry(i, answers[i])) ==> inputs.entry(
            i,
            answers[i],
        ).scale_commands() == Seq::<Seq<char>>::empty(),
{
    let entry = inputs.entry(i, answers[i]);
    assert(inputs.answered(i, answers[i], resolve, differs));
    assert(call_ensures(differs, (running, wanted.value), answers[i].scale_differs));
    outputs_are_told_their_scale(entry);
}

/// Where a stored picture lies is asked under the picture's own name: where that is
/// answered, the display is painted with what was answered.
pub proof fn pictures_are_looked_up_by_name<
    F: Fn(&str) -> Option<String>,
    D: Fn(Real, Real) -> bool,
>(
    inputs: PlanInputs,
    answers: Seq<Answers>,
    resolve: F,
    differs: D,
    i: int,
    background: BackgroundView,
    id: Seq<char>,
    path: Seq<char>,
)
    requires
        all_answered(inputs, answers, resolve, differs),
        0 <= i < inputs.desired.len(),
        inputs.live(i),
        inputs.desired[i].background is Some,
        inputs.desired[i].background->0.resolve(inputs.presets) == Some(background),
        background.wallpaper == Some(id),
        is_fresh(inputs.entry(i, answers[i])),
        forall|asked: &str, said: Option<String>|
            asked@ == id && #[trigger] call_ensures(resolve, (asked,), said) ==> said is Some
                && said->0@ == path,
    ensures
        inputs.entry(i, answers[i]).commands().contains(
            "output "@ + inputs.output_of(i)->0.name + (" bg "@ + path + " "@
                + background.mode.sway_text() + " #"@ + background.sway_color()),
        ),
{
    let entry = inputs.entry(i, answers[i]);
    assert(inputs.answered(i, answers[i], resolve, differs));
    assert(entry.wallpaper_wanted() == Some(id));
    assert(answers[i].wallpaper == Some(path));
    outputs_are_painted_with_a_picture(entry, background, id);
}

/// A plan is made of what each output needs, with every question answered.
pub proof fn plans_are_made_from_answers<
    F: Fn(&str) -> Option<String>,
    D: Fn(Real, Real) -> bool,
>(plan: PlanView, inputs: PlanInputs, resolve: F, differs: D) -> (answers: Seq<Answers>)
    requires
        is_plan(plan, inputs, resolve, differs),
    ensures
        all_answered(inputs, answers, resolve, differs),
        plan == inputs.plan(answers, inputs.desired.len() as int),
{
    choose|answers: Seq<Answers>|
        {
            &&& #[trigger] all_answered(inputs, answers, resolve, differs)
            &&& plan == inputs.plan(answers, inputs.desired.len() as int)
        }
}

/// Without stored pictures no picture is found; scales are compared as ever.
pub proof fn no_picture_is_found_without_a_store<D: Fn(Real, Real) -> bool>(
    inputs: PlanInputs,
    answers: Seq<Answers>,
    differs: D,
    i: int,
)
    requires
        answered_without_wallpapers(inputs, answers, differs),
        0 <= i < inputs.desired.len(),
        inputs.live(i),
    ensures
        answers.len() == inputs.desired.len(),
        inputs.entry(i, answers[i]).resolved_background() is Some && inputs.entry(
            i,
            answers[i],
        ).resolved_background()->0.wallpaper is Some ==> inputs.entry(
            i,
            answers[i],
        ).background_commands() == Seq::<Seq<char>>::empty(),
        inputs.desired[i].scale is Some && inputs.output_of(i)->0.scale is Some ==> call_ensures(
            differs,
            (inputs.output_of(i)->0.scale->0, inputs.desired[i].scale->0.value),
            answers[i].scale_differs,
        ),
{
    let entry = inputs.entry(i, answers[i]);
    let _ = answers[i];
}

/// A plan is made from what is seen, what is wanted, the presets and what was told before,
/// each as it is.
pub proof fn plans_are_made_from_what_is_given(
    observed: &[Output],
    desired: &[OutputConfig],
    presets: &[BackgroundPreset],
    told: &NameMap<AppliedOutput>,
    capabilities: Capabilities,
    name: Seq<char>,
)
    ensures
        ({
            let inputs = plan_inputs(observed, desired, presets, told, capabilities);
            let bare = bare_plan_inputs(observed, desired, told, capabilities);
            &&& inputs.observed == observed.deep_view()
            &&& inputs.desired == desired.deep_view()
            &&& inputs.presets == presets.deep_view()
            &&& inputs.capabilities == capabilities
            &&& inputs.applied.dom().contains(name) <==> told@.dom().contains(name)
            &&& told@.dom().contains(name) ==> inputs.applied[name] == told@[name].deep_view()
            &&& bare == (PlanInputs { presets: Seq::empty(), ..inputs })
        }),
{
}

/// A background is told as its line, or reported as what is wrong with it.
pub proof fn backgrounds_are_told_or_reported(
    made: Result<Option<String>, Divergence>,
    name: Seq<char>,
    background: BackgroundView,
    path: Option<Seq<char>>,
)
    requires
        background_outcome(made, name, background, path),
    ensures
        background.wallpaper is None ==> made is Ok && made->Ok_0 is Some && made->Ok_0->0@
            == "output "@ + name + (" bg #"@ + background.sway_color() + " solid_color"@),
        background.wallpaper is Some && path is Some ==> made is Ok && made->Ok_0 is Some
            && made->Ok_0->0@ == "output "@ + name + (" bg "@ + path->0 + " "@
            + background.mode.sway_text() + " #"@ + background.sway_color()),
        background.wallpaper is Some && path is None ==> made is Err && made->Err_0.kind@
            == "wallpaper_not_found"@ && made->Err_0.subject@ == name,
{
}

/// What is wrong with an output is in the plan, and nothing else is reported.
pub proof fn plans_report_what_each_output_lacks(
    inputs: PlanInputs,
    answers: Seq<Answers>,
    n: int,
    i: int,
    said: DivergenceView,
)
    requires
        0 <= i < n <= inputs.desired.len(),
    ensures
        inputs.divergences(i, answers[i]).contains(said) ==> inputs.plan(
            answers,
            n,
        ).divergences.contains(said),
        inputs.plan(answers, n).divergences.len() == inputs.plan(answers, n - 1).divergences.len()
            + inputs.divergences(n - 1, answers[n - 1]).len(),
        inputs.plan(answers, n).commands.len() == inputs.plan(answers, n - 1).commands.len()
            + inputs.commands(n - 1, answers[n - 1]).len(),
        inputs.plan(answers, 0).commands.len() == 0,
        inputs.plan(answers, 0).divergences.len() == 0,
    decreases n,
{
    let before = inputs.plan(answers, n - 1).divergences;
    let own = inputs.divergences(n - 1, answers[n - 1]);
    if inputs.divergences(i, answers[i]).contains(said) {
        if i == n - 1 {
            let k = choose|k: int| 0 <= k < own.len() && own[k] == said;
            assert((before + own)[before.len() + k] == said);
        } else {
            plans_report_what_each_output_lacks(inputs, answers, n - 1, i, said);
            let k = choose|k: int| 0 <= k < before.len() && before[k] == said;
            assert((before + own)[k] == said);
        }
    }
}

/// A window is moved first, where it has a workspace, and filled then, where it is to be.
pub proof fn windows_are_moved_before_they_are_filled(
    window_id: i64,
    workspace: Option<u32>,
    fullscreen: bool,
    span_outputs: bool,
)
    ensures
        ({
            let told = placement(window_id, workspace, fullscreen, span_outputs);
            let lead = "[con_id="@ + decimal_int(window_id as int);
            &&& told.len() == once_if(workspace is Some) + once_if(fullscreen || span_outputs)
            &&& workspace matches Some(number) ==> told[0] == lead + (
            "] move container to workspace number "@ + decimal(number as nat))
            &&& span_outputs ==> told.last() == lead + "] fullscreen enable global"@
            &&& fullscreen && !span_outputs ==> told.last() == lead + "] fullscreen enable"@
        }),
{
}

} // verus!
