//! A minimal quest-progression engine over a decoded document: it finds the
//! starting location, lists the jumps leaving it, and substitutes the known
//! variable references in display texts from a fixed lookup table. Formula
//! evaluation and parameter conditions are deliberately not implemented.

use vstd::prelude::*;
use vstd::string::StringExecFns;

use crate::markup::{FormattedText, TextElement, TextElementKind, TextElementView};
use crate::types::{JumpId, JumpView, LocationId, LocationType, LocationView, Quest, QuestView};

verus! {

/// What the player may do in one step.
pub enum PlayerAction {
    DoNothing,
}

/// How one step came out.
#[derive(Debug, Clone, Copy, PartialEq, Eq, Structural)]
pub enum StepResult {
    InProgress,
}

/// The location the player is at, with its substituted display text.
#[derive(Debug, Clone)]
pub struct LocationState {
    pub id: LocationId,
    pub description: FormattedText,
}

pub struct LocationStateView {
    pub id: LocationId,
    pub description: Seq<TextElementView>,
}

impl View for LocationState {
    type V = LocationStateView;

    open spec fn view(&self) -> LocationStateView {
        LocationStateView { id: self.id, description: self.description@ }
    }
}

/// One jump the player may take.
#[derive(Debug, Clone)]
pub struct JumpState {
    pub id: JumpId,
    pub name: FormattedText,
    pub available: bool,
}

pub struct JumpStateView {
    pub id: JumpId,
    pub name: Seq<TextElementView>,
    pub available: bool,
}

impl View for JumpState {
    type V = JumpStateView;

    open spec fn view(&self) -> JumpStateView {
        JumpStateView { id: self.id, name: self.name@, available: self.available }
    }
}

/// The models of a sequence of jump states.
pub open spec fn jump_states_view(v: Seq<JumpState>) -> Seq<JumpStateView> {
    v.map_values(|j: JumpState| j@)
}

/// Where the player is and which jumps leave from there.
#[derive(Debug, Clone)]
pub struct QuestState {
    pub location: LocationState,
    pub jumps: Vec<JumpState>,
}

pub struct QuestStateView {
    pub location: LocationStateView,
    pub jumps: Seq<JumpStateView>,
}

impl View for QuestState {
    type V = QuestStateView;

    open spec fn view(&self) -> QuestStateView {
        QuestStateView { location: self.location@, jumps: jump_states_view(self.jumps@) }
    }
}

/// Why a player could not be made.
#[derive(Debug, Clone, Copy, PartialEq, Eq, Structural)]
pub enum QuestError {
    NoStartingLocation,
}

/// The models of a substitution table.
pub open spec fn vars_view(v: Seq<(String, String)>) -> Seq<(Seq<char>, Seq<char>)> {
    v.map_values(|p: (String, String)| (p.0@, p.1@))
}

/// The replacement the table holds for `key`, if any: the first entry whose
/// key matches.
pub open spec fn spec_lookup(vars: Seq<(Seq<char>, Seq<char>)>, key: Seq<char>) -> Option<
    Seq<char>,
>
    decreases vars.len(),
{
    if vars.len() == 0 {
        None
    } else if vars[0].0 == key {
        Some(vars[0].1)
    } else {
        spec_lookup(vars.drop_first(), key)
    }
}

/// One element after variable substitution: a variable reference whose
/// consumed text is in the table gets the table's display string as its
/// value; every other element, and every unknown variable, stays unchanged.
pub open spec fn spec_replace_element(
    vars: Seq<(Seq<char>, Seq<char>)>,
    el: TextElementView,
) -> TextElementView {
    match el.kind {
        TextElementKindView::Variable { name: _ } => match spec_lookup(vars, el.value) {
            Some(v) => TextElementView { kind: el.kind, value: v },
            None => el,
        },
        _ => el,
    }
}

use crate::markup::TextElementKindView;

/// The default substitution table, in its fixed order.
pub fn default_variables() -> (r: Vec<(String, String)>)
    ensures
        vars_view(r@) == spec_default_variables(),
{
    let mut map: Vec<(String, String)> = Vec::new();
    map.push((String::from_str("<ToStar>"), String::from_str("Процион")));
    map.push((String::from_str("<ToPlanet>"), String::from_str("Боннасис")));
    map.push((String::from_str("<FromStar>"), String::from_str("Солнечная")));
    map.push((String::from_str("<FromPlanet>"), String::from_str("Земля")));
    map.push((String::from_str("<Ranger>"), String::from_str("Греф")));
    map.push((String::from_str("<Date>"), String::from_str("15 Марта 3300")));
    map.push((String::from_str("<Day>"), String::from_str("15 Марта")));
    map.push((String::from_str("<Money>"), String::from_str("10000")));
    proof {
        assert(vars_view(map@) =~= spec_default_variables());
    }
    map
}

/// The default substitution table's contents.
pub open spec fn spec_default_variables() -> Seq<(Seq<char>, Seq<char>)> {
    seq![
        ("<ToStar>"@, "Процион"@),
        ("<ToPlanet>"@, "Боннасис"@),
        ("<FromStar>"@, "Солнечная"@),
        ("<FromPlanet>"@, "Земля"@),
        ("<Ranger>"@, "Греф"@),
        ("<Date>"@, "15 Марта 3300"@),
        ("<Day>"@, "15 Марта"@),
        ("<Money>"@, "10000"@),
    ]
}

/// The index of the first location of the starting type at or after `i`.
pub open spec fn spec_starting_index(locs: Seq<LocationView>, i: int) -> Option<int>
    decreases locs.len() - i,
{
    if i < 0 || i >= locs.len() {
        None
    } else if locs[i].ty == LocationType::Starting {
        Some(i)
    } else {
        spec_starting_index(locs, i + 1)
    }
}

/// The jump states for every jump leaving `from`, in file order, from index
/// `i` on, with `acc` the states already listed.
pub open spec fn spec_jump_states_from(
    jumps: Seq<JumpView>,
    from: LocationId,
    i: int,
    acc: Seq<JumpStateView>,
) -> Seq<JumpStateView>
    decreases jumps.len() - i,
{
    if i < 0 || i >= jumps.len() {
        acc
    } else if jumps[i].from == from {
        spec_jump_states_from(
            jumps,
            from,
            i + 1,
            acc.push(JumpStateView { id: jumps[i].id, name: jumps[i].text, available: true }),
        )
    } else {
        spec_jump_states_from(jumps, from, i + 1, acc)
    }
}

/// The jump states for every jump leaving `from`, in file order.
pub open spec fn spec_jump_states(jumps: Seq<JumpView>, from: LocationId) -> Seq<JumpStateView> {
    spec_jump_states_from(jumps, from, 0, seq![])
}

/// Plays one decoded quest: tracks the current location and its jumps, and
/// substitutes display variables.
#[derive(Debug, Clone)]
pub struct QuestPlayer<'q> {
    quest: &'q Quest,
    state: QuestState,
    task_text: FormattedText,
    variables: Vec<(String, String)>,
}

pub struct QuestPlayerView {
    pub quest: QuestView,
    pub state: QuestStateView,
    pub task_text: Seq<TextElementView>,
    pub variables: Seq<(Seq<char>, Seq<char>)>,
}

impl<'q> View for QuestPlayer<'q> {
    type V = QuestPlayerView;

    closed spec fn view(&self) -> QuestPlayerView {
        QuestPlayerView {
            quest: self.quest@,
            state: self.state@,
            task_text: self.task_text@,
            variables: vars_view(self.variables@),
        }
    }
}

impl<'q> QuestPlayer<'q> {
    /// Substitutes the known variable references of one text from the table;
    /// every other element is left unchanged.
    fn replace_formatted_text(variables: &Vec<(String, String)>, text: FormattedText) -> (r:
        FormattedText)
        ensures
            r@ == text@.map_values(
                |el: TextElementView| spec_replace_element(vars_view(variables@), el),
            ),
    {
        let ghost vars = vars_view(variables@);
        let ghost input = text@;
        let mut out: Vec<TextElement> = Vec::new();
        let mut i: usize = 0;
        proof {
            assert(crate::markup::elems_view(out@) =~= Seq::<TextElementView>::empty());
        }
        while i < text.elements.len()
            invariant
                0 <= i <= text.elements@.len(),
                input == text@,
                vars == vars_view(variables@),
                crate::markup::elems_view(out@) =~= input.take(i as int).map_values(
                    |el: TextElementView| spec_replace_element(vars, el),
                ),
            decreases text.elements@.len() - i,
        {
            let el = &text.elements[i];
            let is_var = match &el.kind {
                TextElementKind::Variable { name: _ } => true,
                _ => false,
            };
            let replaced: TextElement = if is_var {
                match Self::lookup(variables, &el.value) {
                    Some(v) => TextElement { kind: el.kind.duplicate(), value: v },
                    None => el.duplicate(),
                }
            } else {
                el.duplicate()
            };
            proof {
                assert(replaced@ == spec_replace_element(vars, input[i as int]));
            }
            let ghost before = crate::markup::elems_view(out@);
            let ghost rv = replaced@;
            out.push(replaced);
            proof {
                assert(crate::markup::elems_view(out@) =~= before.push(rv));
                assert(input.take(i + 1) =~= input.take(i as int).push(input[i as int]));
                assert(input.take(i + 1).map_values(
                    |el: TextElementView| spec_replace_element(vars, el),
                ) =~= input.take(i as int).map_values(
                    |el: TextElementView| spec_replace_element(vars, el),
                ).push(spec_replace_element(vars, input[i as int])));
            }
            i += 1;
        }
        proof {
            assert(input.take(input.len() as int) =~= input);
        }
        FormattedText { elements: out }
    }

    /// The table's replacement for `key`, if any.
    fn lookup(variables: &Vec<(String, String)>, key: &String) -> (r: Option<String>)
        ensures
            match r {
                Some(v) => spec_lookup(vars_view(variables@), key@) == Some(v@),
                None => spec_lookup(vars_view(variables@), key@) is None,
            },
    {
        let ghost vars = vars_view(variables@);
        let mut i: usize = 0;
        proof {
            assert(vars.skip(0) =~= vars);
        }
        while i < variables.len()
            invariant
                0 <= i <= variables@.len(),
                vars == vars_view(variables@),
                spec_lookup(vars, key@) == spec_lookup(vars.skip(i as int), key@),
            decreases variables@.len() - i,
        {
            proof {
                assert(vars[i as int] == (variables@[i as int].0@, variables@[i as int].1@));
                assert(vars.skip(i as int)[0] == vars[i as int]);
                assert(vars.skip(i as int).drop_first() =~= vars.skip(i + 1));
            }
            if variables[i].0.eq(key) {
                proof {
                    assert(vars.skip(i as int)[0].0 == key@);
                }
                return Some(variables[i].1.clone());
            }
            i += 1;
        }
        proof {
            assert(vars.skip(vars.len() as int) =~= Seq::<(Seq<char>, Seq<char>)>::empty());
        }
        None
    }

    /// Makes a player for one decoded quest, positioned at the first starting
    /// location, with its display texts substituted from the default table.
    /// The starting location must have a presentation text to show.
    pub fn new(quest: &'q Quest, _seed: u64) -> (r: Result<QuestPlayer<'q>, QuestError>)
        requires
            spec_starting_index(quest@.locations, 0) matches Some(i) ==> quest@.locations[i].texts.len() > 0,
        ensures
            match r {
                Ok(player) => spec_starting_index(quest@.locations, 0) matches Some(i) && ({
                    let loc = quest@.locations[i];
                    let vars = spec_default_variables();
                    &&& player@.quest == quest@
                    &&& player@.variables == vars
                    &&& player@.state.location.id == loc.id
                    &&& player@.state.location.description == loc.texts[0].map_values(
                        |el: TextElementView| spec_replace_element(vars, el),
                    )
                    &&& player@.state.jumps == spec_jump_states(quest@.jumps, loc.id)
                    &&& player@.task_text == quest@.info.task_text.map_values(
                        |el: TextElementView| spec_replace_element(vars, el),
                    )
                }),
                Err(e) => spec_starting_index(quest@.locations, 0) is None && e
                    == QuestError::NoStartingLocation,
            },
    {
        let mut idx: usize = 0;
        let mut found: bool = false;
        while idx < quest.locations.len() && !found
            invariant
                0 <= idx <= quest.locations@.len(),
                spec_starting_index(quest@.locations, 0) == spec_starting_index(
                    quest@.locations,
                    if found {
                        idx - 1
                    } else {
                        idx as int
                    },
                ),
                found ==> idx >= 1 && quest@.locations[idx - 1].ty == LocationType::Starting,
            decreases quest.locations@.len() - idx + (if found {
                0int
            } else {
                1int
            }),
        {
            proof {
                assert(quest@.locations[idx as int] == quest.locations@[idx as int]@);
            }
            let is_starting = match quest.locations[idx].ty {
                LocationType::Starting => true,
                _ => false,
            };
            idx += 1;
            if is_starting {
                found = true;
            }
        }
        if !found {
            return Err(QuestError::NoStartingLocation);
        }
        let start_idx = idx - 1;
        let starting = &quest.locations[start_idx];
        let variables = default_variables();
        let mut jumps: Vec<JumpState> = Vec::new();
        let mut j: usize = 0;
        proof {
            assert(jump_states_view(jumps@) =~= Seq::<JumpStateView>::empty());
        }
        while j < quest.jumps.len()
            invariant
                0 <= j <= quest.jumps@.len(),
                start_idx < quest.locations@.len(),
                spec_jump_states(quest@.jumps, quest@.locations[start_idx as int].id)
                    == spec_jump_states_from(
                    quest@.jumps,
                    quest@.locations[start_idx as int].id,
                    j as int,
                    jump_states_view(jumps@),
                ),
            decreases quest.jumps@.len() - j,
        {
            proof {
                assert(quest@.jumps[j as int] == quest.jumps@[j as int]@);
                assert(quest@.locations[start_idx as int] == quest.locations@[start_idx as int]@);
            }
            let jump = &quest.jumps[j];
            if jump.from == quest.locations[start_idx].id {
                let state = JumpState { id: jump.id, name: jump.text.duplicate(), available: true };
                let ghost before = jump_states_view(jumps@);
                let ghost sv = state@;
                jumps.push(state);
                proof {
                    assert(jump_states_view(jumps@) =~= before.push(sv));
                }
            }
            j += 1;
        }
        proof {
            assert(quest@.locations[start_idx as int] == quest.locations@[start_idx as int]@);
            let si = start_idx as int;
            assert(quest@.locations[si].texts[0] == quest.locations@[si]@.texts[0]);
        }
        let description = Self::replace_formatted_text(&variables, starting.texts[0].duplicate());
        let state = QuestState {
            location: LocationState { id: starting.id, description },
            jumps,
        };
        let task_text = Self::replace_formatted_text(&variables, quest.info.task_text.duplicate());
        Ok(QuestPlayer { quest, state, task_text, variables })
    }

    /// The substituted task text.
    pub fn task_text(&self) -> (r: &FormattedText)
        ensures
            r@ == self@.task_text,
    {
        &self.task_text
    }

    /// Performs one step; the only action does nothing.
    pub fn step(&mut self, action: PlayerAction) -> (r: StepResult)
        ensures
            r == StepResult::InProgress,
            *final(self) == *old(self),
    {
        match action {
            PlayerAction::DoNothing => StepResult::InProgress,
        }
    }

    /// The current state.
    pub fn state(&self) -> (r: &QuestState)
        ensures
            r@ == self@.state,
    {
        &self.state
    }

    /// The quest being played.
    pub fn quest(&self) -> (r: &Quest)
        ensures
            r@ == self@.quest,
    {
        self.quest
    }
}

} // verus!
