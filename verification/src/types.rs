//! The document model: the value tree one decoded quest file yields,
//! immutable once decoded, together with the mathematical model of each type
//! that holds text or lists.

use vstd::prelude::*;

use crate::formula::{Formula, FormulaTokenView, toks_view};
use crate::markup::{elems_view, FormattedText, TextElementView};

verus! {

/// The format version, told apart by the file's 4-byte magic.
#[derive(Debug, Clone, Copy, PartialEq, Eq, Structural)]
pub enum Version {
    Qmm6,
    Qmm7,
}

impl Version {
    /// The version a file magic denotes, if any.
    pub fn try_from(value: &[u8; 4]) -> (r: Result<Version, ()>)
        ensures
            r == spec_version_of(value@[0], value@[1], value@[2], value@[3]),
    {
        if value[0] == 0xD6 && value[1] == 0x35 && value[2] == 0x3A && value[3] == 0x42 {
            Ok(Version::Qmm6)
        } else if value[0] == 0xD7 && value[1] == 0x35 && value[2] == 0x3A && value[3] == 0x42 {
            Ok(Version::Qmm7)
        } else {
            Err(())
        }
    }
}

/// The version a file magic denotes, if any.
pub open spec fn spec_version_of(b0: u8, b1: u8, b2: u8, b3: u8) -> Result<Version, ()> {
    if b0 == 0xD6 && b1 == 0x35 && b2 == 0x3A && b3 == 0x42 {
        Ok(Version::Qmm6)
    } else if b0 == 0xD7 && b1 == 0x35 && b2 == 0x3A && b3 == 0x42 {
        Ok(Version::Qmm7)
    } else {
        Err(())
    }
}

/// A set of races as the format's bitmask; only the five known bits may be
/// set.
#[derive(Debug, Clone, Copy, PartialEq, Eq, Structural)]
pub struct Race {
    pub bits: u8,
}

impl Race {
    /// The bit standing for the Malok race.
    pub open spec fn malok() -> u8 {
        0x01
    }

    /// The bit standing for the Peleng race.
    pub open spec fn peleng() -> u8 {
        0x02
    }

    /// The bit standing for the Human race.
    pub open spec fn human() -> u8 {
        0x04
    }

    /// The bit standing for the Fay race.
    pub open spec fn fay() -> u8 {
        0x08
    }

    /// The bit standing for the Gaal race.
    pub open spec fn gaal() -> u8 {
        0x10
    }

    /// Does the byte set only known race bits?
    pub open spec fn spec_valid_bits(value: u8) -> bool {
        value & 0xE0 == 0
    }

    /// The race set a mask byte denotes: every bit must be a known race.
    pub fn try_from(value: u8) -> (r: Result<Race, ()>)
        ensures
            Race::spec_valid_bits(value) <==> r == Ok::<Race, ()>(Race { bits: value }),
            !Race::spec_valid_bits(value) <==> r == Err::<Race, ()>(()),
    {
        if value & 0xE0 == 0 {
            Ok(Race { bits: value })
        } else {
            Err(())
        }
    }

    /// The set holding every race.
    pub fn all() -> (r: Race)
        ensures
            r.bits == 0x1F,
    {
        Race { bits: 0x1F }
    }
}

/// When the quest counts as completed.
#[derive(Debug, Clone, Copy, PartialEq, Eq, Structural)]
pub enum CompletionCondition {
    Immediately,
    AfterReturning,
}

impl CompletionCondition {
    /// The condition a tag byte denotes, if any.
    pub fn try_from(value: u8) -> (r: Result<CompletionCondition, ()>)
        ensures
            r == spec_completion_condition_of(value),
    {
        match value {
            0x00 => Ok(CompletionCondition::AfterReturning),
            0x01 => Ok(CompletionCondition::Immediately),
            _ => Err(()),
        }
    }
}

/// The completion condition a tag byte denotes, if any.
pub open spec fn spec_completion_condition_of(value: u8) -> Result<CompletionCondition, ()> {
    if value == 0 {
        Ok(CompletionCondition::AfterReturning)
    } else if value == 1 {
        Ok(CompletionCondition::Immediately)
    } else {
        Err(())
    }
}

/// The quest planet: uninhabited, or populated by a set of races.
#[derive(Debug, Clone, Copy, PartialEq, Eq, Structural)]
pub enum PlanetType {
    Populated(Race),
    Uninhabited,
}

/// A set of player statuses as the format's bitmask; only the three known
/// bits may be set.
#[derive(Debug, Clone, Copy, PartialEq, Eq, Structural)]
pub struct PlayerStatus {
    pub bits: u8,
}

impl PlayerStatus {
    /// The bit standing for a trader.
    pub open spec fn trader() -> u8 {
        0x01
    }

    /// The bit standing for a pirate.
    pub open spec fn pirate() -> u8 {
        0x02
    }

    /// The bit standing for a warrior.
    pub open spec fn warrior() -> u8 {
        0x04
    }

    /// Does the byte set only known status bits?
    pub open spec fn spec_valid_bits(value: u8) -> bool {
        value & 0xF8 == 0
    }

    /// The status set a mask byte denotes: every bit must be a known status.
    pub fn try_from(value: u8) -> (r: Result<PlayerStatus, ()>)
        ensures
            PlayerStatus::spec_valid_bits(value) <==> r == Ok::<PlayerStatus, ()>(
                PlayerStatus { bits: value },
            ),
            !PlayerStatus::spec_valid_bits(value) <==> r == Err::<PlayerStatus, ()>(()),
    {
        if value & 0xF8 == 0 {
            Ok(PlayerStatus { bits: value })
        } else {
            Err(())
        }
    }

    /// The set holding every status.
    pub fn all() -> (r: PlayerStatus)
        ensures
            r.bits == 0x07,
    {
        PlayerStatus { bits: 0x07 }
    }
}

/// How many jumps the player may make: unbounded, or a positive bound.
#[derive(Debug, Clone, Copy, PartialEq, Eq, Structural)]
pub enum JumpsLimit {
    Infinite,
    Limit(u32),
}

/// The file header.
#[derive(Debug, Clone, PartialEq, Eq, Structural)]
pub struct Header {
    pub version: Version,
    pub giver_race: Race,
    pub completion_condition: CompletionCondition,
    pub quest_planet_type: PlanetType,
    pub player_status: PlayerStatus,
    pub player_race: Race,
    pub relation_change: i8,
    pub default_jumps_limit: JumpsLimit,
    pub difficult: u32,
    pub parameters_count: usize,
}

/// What a parameter means for the quest's outcome.
#[derive(Debug, Clone, Copy, PartialEq, Eq, Structural)]
pub enum ParameterType {
    Ordinary,
    Fail,
    Win,
    Death,
}

impl ParameterType {
    /// The parameter type a tag byte denotes, if any.
    pub fn try_from(value: u8) -> (r: Result<ParameterType, ()>)
        ensures
            r == spec_parameter_type_of(value),
    {
        match value {
            0x00 => Ok(ParameterType::Ordinary),
            0x01 => Ok(ParameterType::Fail),
            0x02 => Ok(ParameterType::Win),
            0x03 => Ok(ParameterType::Death),
            _ => Err(()),
        }
    }
}

/// The parameter type a tag byte denotes, if any.
pub open spec fn spec_parameter_type_of(value: u8) -> Result<ParameterType, ()> {
    if value == 0 {
        Ok(ParameterType::Ordinary)
    } else if value == 1 {
        Ok(ParameterType::Fail)
    } else if value == 2 {
        Ok(ParameterType::Win)
    } else if value == 3 {
        Ok(ParameterType::Death)
    } else {
        Err(())
    }
}

/// Which end of a parameter's range is its critical side.
#[derive(Debug, Clone, Copy, PartialEq, Eq, Structural)]
pub enum CriticalValue {
    Min,
    Max,
}

/// One display rule: the text shown while the parameter lies in the closed
/// interval.
#[derive(Debug, Clone, PartialEq, Eq)]
pub struct FormattedRangeLine {
    pub from: i32,
    pub to: i32,
    pub value: String,
}

pub struct FormattedRangeLineView {
    pub from: i32,
    pub to: i32,
    pub value: Seq<char>,
}

impl View for FormattedRangeLine {
    type V = FormattedRangeLineView;

    open spec fn view(&self) -> FormattedRangeLineView {
        FormattedRangeLineView { from: self.from, to: self.to, value: self.value@ }
    }
}

/// One quest parameter.
#[derive(Debug, Clone, PartialEq, Eq)]
pub struct Parameter {
    pub min_value: i32,
    pub max_value: i32,
    pub ty: ParameterType,
    pub show_when_zero: bool,
    pub critical_value: CriticalValue,
    pub is_active: bool,
    pub is_money: bool,
    pub name: String,
    pub formatted_range_lines: Vec<FormattedRangeLine>,
    pub critical_text: String,
    pub image: String,
    pub sound: String,
    pub track: String,
    pub starting_value: String,
}

pub struct ParameterView {
    pub min_value: i32,
    pub max_value: i32,
    pub ty: ParameterType,
    pub show_when_zero: bool,
    pub critical_value: CriticalValue,
    pub is_active: bool,
    pub is_money: bool,
    pub name: Seq<char>,
    pub formatted_range_lines: Seq<FormattedRangeLineView>,
    pub critical_text: Seq<char>,
    pub image: Seq<char>,
    pub sound: Seq<char>,
    pub track: Seq<char>,
    pub starting_value: Seq<char>,
}

/// The models of a sequence of display rules.
pub open spec fn lines_view(v: Seq<FormattedRangeLine>) -> Seq<FormattedRangeLineView> {
    v.map_values(|l: FormattedRangeLine| l@)
}

impl View for Parameter {
    type V = ParameterView;

    open spec fn view(&self) -> ParameterView {
        ParameterView {
            min_value: self.min_value,
            max_value: self.max_value,
            ty: self.ty,
            show_when_zero: self.show_when_zero,
            critical_value: self.critical_value,
            is_active: self.is_active,
            is_money: self.is_money,
            name: self.name@,
            formatted_range_lines: lines_view(self.formatted_range_lines@),
            critical_text: self.critical_text@,
            image: self.image@,
            sound: self.sound@,
            track: self.track@,
            starting_value: self.starting_value@,
        }
    }
}

/// The five display-name substitutions of the string-replacement block.
#[derive(Debug, Clone, PartialEq, Eq)]
pub struct StringReplacements {
    pub to_star: String,
    pub to_planet: String,
    pub from_planet: String,
    pub from_star: String,
    pub ranger: String,
}

pub struct StringReplacementsView {
    pub to_star: Seq<char>,
    pub to_planet: Seq<char>,
    pub from_planet: Seq<char>,
    pub from_star: Seq<char>,
    pub ranger: Seq<char>,
}

impl View for StringReplacements {
    type V = StringReplacementsView;

    open spec fn view(&self) -> StringReplacementsView {
        StringReplacementsView {
            to_star: self.to_star@,
            to_planet: self.to_planet@,
            from_planet: self.from_planet@,
            from_star: self.from_star@,
            ranger: self.ranger@,
        }
    }
}

/// The quest-info block: the declared location and jump counts, and the two
/// embedded-markup texts.
#[derive(Debug, Clone, PartialEq, Eq)]
pub struct Info {
    pub locations_count: u32,
    pub jumps_count: u32,
    pub success_text: FormattedText,
    pub task_text: FormattedText,
}

pub struct InfoView {
    pub locations_count: u32,
    pub jumps_count: u32,
    pub success_text: Seq<TextElementView>,
    pub task_text: Seq<TextElementView>,
}

impl View for Info {
    type V = InfoView;

    open spec fn view(&self) -> InfoView {
        InfoView {
            locations_count: self.locations_count,
            jumps_count: self.jumps_count,
            success_text: self.success_text@,
            task_text: self.task_text@,
        }
    }
}

/// How often a location or jump may be visited.
#[derive(Debug, Clone, Copy, PartialEq, Eq, Structural)]
pub enum MaxVisits {
    Infinite,
    Limit(u32),
}

/// What role a location plays.
#[derive(Debug, Clone, Copy, PartialEq, Eq, Structural)]
pub enum LocationType {
    Ordinary,
    Starting,
    Empty,
    Success,
    Fail,
    Death,
}

impl LocationType {
    /// The location type a tag byte denotes, if any.
    pub fn try_from(value: u8) -> (r: Result<LocationType, ()>)
        ensures
            r == spec_location_type_of(value),
    {
        match value {
            0x00 => Ok(LocationType::Ordinary),
            0x01 => Ok(LocationType::Starting),
            0x02 => Ok(LocationType::Empty),
            0x03 => Ok(LocationType::Success),
            0x04 => Ok(LocationType::Fail),
            0x05 => Ok(LocationType::Death),
            _ => Err(()),
        }
    }
}

/// The location type a tag byte denotes, if any.
pub open spec fn spec_location_type_of(value: u8) -> Result<LocationType, ()> {
    if value == 0 {
        Ok(LocationType::Ordinary)
    } else if value == 1 {
        Ok(LocationType::Starting)
    } else if value == 2 {
        Ok(LocationType::Empty)
    } else if value == 3 {
        Ok(LocationType::Success)
    } else if value == 4 {
        Ok(LocationType::Fail)
    } else if value == 5 {
        Ok(LocationType::Death)
    } else {
        Err(())
    }
}

/// Whether a parameter change is shown to the player.
#[derive(Debug, Clone, Copy, PartialEq, Eq, Structural)]
pub enum ParameterShowType {
    Nothing,
    Show,
    Hide,
}

impl ParameterShowType {
    /// The show policy a tag byte denotes, if any.
    pub fn try_from(value: u8) -> (r: Result<ParameterShowType, ()>)
        ensures
            r == spec_parameter_show_type_of(value),
    {
        match value {
            0x00 => Ok(ParameterShowType::Nothing),
            0x01 => Ok(ParameterShowType::Show),
            0x02 => Ok(ParameterShowType::Hide),
            _ => Err(()),
        }
    }
}

/// The show policy a tag byte denotes, if any.
pub open spec fn spec_parameter_show_type_of(value: u8) -> Result<ParameterShowType, ()> {
    if value == 0 {
        Ok(ParameterShowType::Nothing)
    } else if value == 1 {
        Ok(ParameterShowType::Show)
    } else if value == 2 {
        Ok(ParameterShowType::Hide)
    } else {
        Err(())
    }
}

/// How a parameter change computes the new value.
#[derive(Debug, Clone, Copy, PartialEq, Eq, Structural)]
pub enum ParameterChangeType {
    Value,
    Sum,
    Percentage,
    Formula,
}

impl ParameterChangeType {
    /// The change kind a tag byte denotes, if any.
    pub fn try_from(value: u8) -> (r: Result<ParameterChangeType, ()>)
        ensures
            r == spec_parameter_change_type_of(value),
    {
        match value {
            0x00 => Ok(ParameterChangeType::Value),
            0x01 => Ok(ParameterChangeType::Sum),
            0x02 => Ok(ParameterChangeType::Percentage),
            0x03 => Ok(ParameterChangeType::Formula),
            _ => Err(()),
        }
    }
}

/// The change kind a tag byte denotes, if any.
pub open spec fn spec_parameter_change_type_of(value: u8) -> Result<ParameterChangeType, ()> {
    if value == 0 {
        Ok(ParameterChangeType::Value)
    } else if value == 1 {
        Ok(ParameterChangeType::Sum)
    } else if value == 2 {
        Ok(ParameterChangeType::Percentage)
    } else if value == 3 {
        Ok(ParameterChangeType::Formula)
    } else {
        Err(())
    }
}

/// Three optional asset names; the empty string means absent.
#[derive(Debug, Clone, PartialEq, Eq)]
pub struct Media {
    pub image: String,
    pub sound: String,
    pub track: String,
}

pub struct MediaView {
    pub image: Seq<char>,
    pub sound: Seq<char>,
    pub track: Seq<char>,
}

impl View for Media {
    type V = MediaView;

    open spec fn view(&self) -> MediaView {
        MediaView { image: self.image@, sound: self.sound@, track: self.track@ }
    }
}

/// One parameter-change record.
#[derive(Debug, Clone, PartialEq, Eq)]
pub struct ParameterChange {
    pub parameter_id: u32,
    pub show_type: ParameterShowType,
    pub change_type: ParameterChangeType,
    pub formula: Formula,
    pub critical_text: String,
    pub media: Media,
}

pub struct ParameterChangeView {
    pub parameter_id: u32,
    pub show_type: ParameterShowType,
    pub change_type: ParameterChangeType,
    pub formula: Seq<FormulaTokenView>,
    pub critical_text: Seq<char>,
    pub media: MediaView,
}

/// The models of a sequence of parameter changes.
pub open spec fn changes_view(v: Seq<ParameterChange>) -> Seq<ParameterChangeView> {
    v.map_values(|c: ParameterChange| c@)
}

impl View for ParameterChange {
    type V = ParameterChangeView;

    open spec fn view(&self) -> ParameterChangeView {
        ParameterChangeView {
            parameter_id: self.parameter_id,
            show_type: self.show_type,
            change_type: self.change_type,
            formula: self.formula@,
            critical_text: self.critical_text@,
            media: self.media@,
        }
    }
}

/// How a location picks among its presentation variants.
#[derive(Debug, Clone, PartialEq, Eq)]
pub enum LocationSelectType {
    ByOrder,
    ByFormula(Formula),
}

pub enum LocationSelectTypeView {
    ByOrder,
    ByFormula(Seq<FormulaTokenView>),
}

impl View for LocationSelectType {
    type V = LocationSelectTypeView;

    open spec fn view(&self) -> LocationSelectTypeView {
        match self {
            LocationSelectType::ByOrder => LocationSelectTypeView::ByOrder,
            LocationSelectType::ByFormula(f) => LocationSelectTypeView::ByFormula(f@),
        }
    }
}

/// A location's identifier in the file.
#[derive(Debug, Clone, Copy, PartialEq, Eq, Structural)]
pub struct LocationId(pub u32);

/// One location.
#[derive(Debug, Clone, PartialEq, Eq)]
pub struct Location {
    pub do_pass_day: bool,
    pub id: LocationId,
    pub max_visits: MaxVisits,
    pub ty: LocationType,
    pub parameter_changes: Vec<ParameterChange>,
    pub texts: Vec<FormattedText>,
    pub media: Vec<Media>,
    pub select_type: LocationSelectType,
}

pub struct LocationView {
    pub do_pass_day: bool,
    pub id: LocationId,
    pub max_visits: MaxVisits,
    pub ty: LocationType,
    pub parameter_changes: Seq<ParameterChangeView>,
    pub texts: Seq<Seq<TextElementView>>,
    pub media: Seq<MediaView>,
    pub select_type: LocationSelectTypeView,
}

/// The models of a sequence of scanned texts.
pub open spec fn texts_view(v: Seq<FormattedText>) -> Seq<Seq<TextElementView>> {
    v.map_values(|t: FormattedText| t@)
}

/// The models of a sequence of media references.
pub open spec fn media_view(v: Seq<Media>) -> Seq<MediaView> {
    v.map_values(|m: Media| m@)
}

impl View for Location {
    type V = LocationView;

    open spec fn view(&self) -> LocationView {
        LocationView {
            do_pass_day: self.do_pass_day,
            id: self.id,
            max_visits: self.max_visits,
            ty: self.ty,
            parameter_changes: changes_view(self.parameter_changes@),
            texts: texts_view(self.texts@),
            media: media_view(self.media@),
            select_type: self.select_type@,
        }
    }
}

/// A jump's identifier in the file.
#[derive(Debug, Clone, Copy, PartialEq, Eq, Structural)]
pub struct JumpId(pub u32);

/// One jump-parameter-condition record.
#[derive(Debug, Clone, PartialEq, Eq)]
pub struct JumpParameterCondition {
    pub parameter_id: u32,
    pub range_start: i32,
    pub range_end: i32,
    pub must_equal: bool,
    pub must_equal_values: Vec<i32>,
    pub must_mod: bool,
    pub must_mod_values: Vec<i32>,
}

pub struct JumpParameterConditionView {
    pub parameter_id: u32,
    pub range_start: i32,
    pub range_end: i32,
    pub must_equal: bool,
    pub must_equal_values: Seq<i32>,
    pub must_mod: bool,
    pub must_mod_values: Seq<i32>,
}

/// The models of a sequence of jump-parameter-conditions.
pub open spec fn conditions_view(v: Seq<JumpParameterCondition>) -> Seq<
    JumpParameterConditionView,
> {
    v.map_values(|c: JumpParameterCondition| c@)
}

impl View for JumpParameterCondition {
    type V = JumpParameterConditionView;

    open spec fn view(&self) -> JumpParameterConditionView {
        JumpParameterConditionView {
            parameter_id: self.parameter_id,
            range_start: self.range_start,
            range_end: self.range_end,
            must_equal: self.must_equal,
            must_equal_values: self.must_equal_values@,
            must_mod: self.must_mod,
            must_mod_values: self.must_mod_values@,
        }
    }
}

/// One jump between locations. `priority` holds the raw little-endian bit
/// pattern of the format's 8-byte floating-point weight; the decoder never
/// computes with it.
#[derive(Debug, Clone, PartialEq, Eq)]
pub struct Jump {
    pub priority: u64,
    pub do_pass_day: bool,
    pub id: JumpId,
    pub from: LocationId,
    pub to: LocationId,
    pub show_always: bool,
    pub max_visits: MaxVisits,
    pub show_order: u32,
    pub parameters_conditions: Vec<JumpParameterCondition>,
    pub parameter_changes: Vec<ParameterChange>,
    pub formula: Formula,
    pub text: FormattedText,
    pub description: FormattedText,
    pub media: Media,
}

pub struct JumpView {
    pub priority: u64,
    pub do_pass_day: bool,
    pub id: JumpId,
    pub from: LocationId,
    pub to: LocationId,
    pub show_always: bool,
    pub max_visits: MaxVisits,
    pub show_order: u32,
    pub parameters_conditions: Seq<JumpParameterConditionView>,
    pub parameter_changes: Seq<ParameterChangeView>,
    pub formula: Seq<FormulaTokenView>,
    pub text: Seq<TextElementView>,
    pub description: Seq<TextElementView>,
    pub media: MediaView,
}

impl View for Jump {
    type V = JumpView;

    open spec fn view(&self) -> JumpView {
        JumpView {
            priority: self.priority,
            do_pass_day: self.do_pass_day,
            id: self.id,
            from: self.from,
            to: self.to,
            show_always: self.show_always,
            max_visits: self.max_visits,
            show_order: self.show_order,
            parameters_conditions: conditions_view(self.parameters_conditions@),
            parameter_changes: changes_view(self.parameter_changes@),
            formula: self.formula@,
            text: self.text@,
            description: self.description@,
            media: self.media@,
        }
    }
}

/// The whole decoded document.
#[derive(Debug, Clone)]
pub struct Quest {
    pub header: Header,
    pub parameters: Vec<Parameter>,
    pub string_replacements: StringReplacements,
    pub info: Info,
    pub locations: Vec<Location>,
    pub jumps: Vec<Jump>,
}

pub struct QuestView {
    pub header: Header,
    pub parameters: Seq<ParameterView>,
    pub string_replacements: StringReplacementsView,
    pub info: InfoView,
    pub locations: Seq<LocationView>,
    pub jumps: Seq<JumpView>,
}

/// The models of a sequence of parameters.
pub open spec fn params_view(v: Seq<Parameter>) -> Seq<ParameterView> {
    v.map_values(|p: Parameter| p@)
}

/// The models of a sequence of locations.
pub open spec fn locations_view(v: Seq<Location>) -> Seq<LocationView> {
    v.map_values(|l: Location| l@)
}

/// The models of a sequence of jumps.
pub open spec fn jumps_view(v: Seq<Jump>) -> Seq<JumpView> {
    v.map_values(|j: Jump| j@)
}

impl View for Quest {
    type V = QuestView;

    open spec fn view(&self) -> QuestView {
        QuestView {
            header: self.header,
            parameters: params_view(self.parameters@),
            string_replacements: self.string_replacements@,
            info: self.info@,
            locations: locations_view(self.locations@),
            jumps: jumps_view(self.jumps@),
        }
    }
}

} // verus!
