//! Week assignment and ordering of maintenance events.
//!
//! After the events of a maintenance year are assembled, every event still
//! without a week gets one from the timing rules (mission events from their
//! fleet's travel, combat at week 2, administrative events at week 52,
//! follow-up events in the week of the mission that caused them), and each
//! list is then sorted by week, keeping same-week events in order. Weeks
//! already set are never changed.
use crate::game::CoreGameData;
use crate::maint::events::{
    AssaultReportEvent, BombardEvent, CampaignOutcomeEvent, CampaignOutlookEvent,
    CivilDisorderEvent, ColonizationResolvedEvent, DiplomaticEscalationEvent,
    EncounterDispositionEvent, FleetBattleEvent, FleetDefectionEvent, FleetDestroyedEvent,
    FleetMergeEvent, MaintenanceEvents, Mission, MissionEvent, MissionOutcome,
    PlanetOwnershipChangeEvent, SalvageResolvedEvent, ScoutContactEvent, StarbaseDestroyedEvent,
};
use crate::maint::ordering::{
    lemma_settled_sort_again, lemma_sorted_stamps_settle, lemma_stamps_of_stamped, settled_list,
    sort_by_week, stable_week_sort_of, stamps_of, WeekStamped,
};
use crate::maint::timing::{
    lemma_mission_week_schedule,
    apply_timing_offset, base_week, clamp_week, code_offset, event_base_week, mission_code,
    mission_timing_code,
};
use vstd::prelude::*;

verus! {

impl WeekStamped for MissionEvent {
    open spec fn week_stamp(&self) -> Option<u8> {
        self.stardate_week
    }

    open spec fn week_key(&self) -> u8 {
        match self.stardate_week {
            Some(w) => w,
            None => 1,
        }
    }

    fn week(&self) -> (r: u8) {
        match self.stardate_week {
            Some(w) => w,
            None => 1,
        }
    }
}

impl WeekStamped for FleetBattleEvent {
    open spec fn week_stamp(&self) -> Option<u8> {
        self.stardate_week
    }

    open spec fn week_key(&self) -> u8 {
        match self.stardate_week {
            Some(w) => w,
            None => 1,
        }
    }

    fn week(&self) -> (r: u8) {
        match self.stardate_week {
            Some(w) => w,
            None => 1,
        }
    }
}

impl WeekStamped for FleetDestroyedEvent {
    open spec fn week_stamp(&self) -> Option<u8> {
        self.stardate_week
    }

    open spec fn week_key(&self) -> u8 {
        match self.stardate_week {
            Some(w) => w,
            None => 1,
        }
    }

    fn week(&self) -> (r: u8) {
        match self.stardate_week {
            Some(w) => w,
            None => 1,
        }
    }
}

impl WeekStamped for StarbaseDestroyedEvent {
    open spec fn week_stamp(&self) -> Option<u8> {
        self.stardate_week
    }

    open spec fn week_key(&self) -> u8 {
        match self.stardate_week {
            Some(w) => w,
            None => 1,
        }
    }

    fn week(&self) -> (r: u8) {
        match self.stardate_week {
            Some(w) => w,
            None => 1,
        }
    }
}

impl WeekStamped for AssaultReportEvent {
    open spec fn week_stamp(&self) -> Option<u8> {
        self.stardate_week
    }

    open spec fn week_key(&self) -> u8 {
        match self.stardate_week {
            Some(w) => w,
            None => 1,
        }
    }

    fn week(&self) -> (r: u8) {
        match self.stardate_week {
            Some(w) => w,
            None => 1,
        }
    }
}

impl WeekStamped for BombardEvent {
    open spec fn week_stamp(&self) -> Option<u8> {
        self.stardate_week
    }

    open spec fn week_key(&self) -> u8 {
        match self.stardate_week {
            Some(w) => w,
            None => 1,
        }
    }

    fn week(&self) -> (r: u8) {
        match self.stardate_week {
            Some(w) => w,
            None => 1,
        }
    }
}

impl WeekStamped for ScoutContactEvent {
    open spec fn week_stamp(&self) -> Option<u8> {
        self.stardate_week
    }

    open spec fn week_key(&self) -> u8 {
        match self.stardate_week {
            Some(w) => w,
            None => 1,
        }
    }

    fn week(&self) -> (r: u8) {
        match self.stardate_week {
            Some(w) => w,
            None => 1,
        }
    }
}

impl WeekStamped for PlanetOwnershipChangeEvent {
    open spec fn week_stamp(&self) -> Option<u8> {
        self.stardate_week
    }

    open spec fn week_key(&self) -> u8 {
        match self.stardate_week {
            Some(w) => w,
            None => 1,
        }
    }

    fn week(&self) -> (r: u8) {
        match self.stardate_week {
            Some(w) => w,
            None => 1,
        }
    }
}

impl WeekStamped for FleetMergeEvent {
    open spec fn week_stamp(&self) -> Option<u8> {
        self.stardate_week
    }

    open spec fn week_key(&self) -> u8 {
        match self.stardate_week {
            Some(w) => w,
            None => 1,
        }
    }

    fn week(&self) -> (r: u8) {
        match self.stardate_week {
            Some(w) => w,
            None => 1,
        }
    }
}

impl WeekStamped for CivilDisorderEvent {
    open spec fn week_stamp(&self) -> Option<u8> {
        self.stardate_week
    }

    open spec fn week_key(&self) -> u8 {
        match self.stardate_week {
            Some(w) => w,
            None => 52,
        }
    }

    fn week(&self) -> (r: u8) {
        match self.stardate_week {
            Some(w) => w,
            None => 52,
        }
    }
}

impl WeekStamped for CampaignOutlookEvent {
    open spec fn week_stamp(&self) -> Option<u8> {
        self.stardate_week
    }

    open spec fn week_key(&self) -> u8 {
        match self.stardate_week {
            Some(w) => w,
            None => 52,
        }
    }

    fn week(&self) -> (r: u8) {
        match self.stardate_week {
            Some(w) => w,
            None => 52,
        }
    }
}

impl WeekStamped for CampaignOutcomeEvent {
    open spec fn week_stamp(&self) -> Option<u8> {
        self.stardate_week
    }

    open spec fn week_key(&self) -> u8 {
        match self.stardate_week {
            Some(w) => w,
            None => 52,
        }
    }

    fn week(&self) -> (r: u8) {
        match self.stardate_week {
            Some(w) => w,
            None => 52,
        }
    }
}

impl WeekStamped for FleetDefectionEvent {
    open spec fn week_stamp(&self) -> Option<u8> {
        self.stardate_week
    }

    open spec fn week_key(&self) -> u8 {
        match self.stardate_week {
            Some(w) => w,
            None => 52,
        }
    }

    fn week(&self) -> (r: u8) {
        match self.stardate_week {
            Some(w) => w,
            None => 52,
        }
    }
}

impl WeekStamped for DiplomaticEscalationEvent {
    open spec fn week_stamp(&self) -> Option<u8> {
        self.stardate_week
    }

    open spec fn week_key(&self) -> u8 {
        match self.stardate_week {
            Some(w) => w,
            None => 1,
        }
    }

    fn week(&self) -> (r: u8) {
        match self.stardate_week {
            Some(w) => w,
            None => 1,
        }
    }
}

/// The week stamp of an event of either outcome.
pub open spec fn colonization_stamp(e: ColonizationResolvedEvent) -> Option<u8> {
    match e {
        ColonizationResolvedEvent::Succeeded { stardate_week, .. } => stardate_week,
        ColonizationResolvedEvent::BlockedByOwner { stardate_week, .. } => stardate_week,
    }
}

impl WeekStamped for ColonizationResolvedEvent {
    open spec fn week_stamp(&self) -> Option<u8> {
        colonization_stamp(*self)
    }

    open spec fn week_key(&self) -> u8 {
        match colonization_stamp(*self) {
            Some(w) => w,
            None => 1,
        }
    }

    fn week(&self) -> (r: u8) {
        let stamp = match self {
            ColonizationResolvedEvent::Succeeded { stardate_week, .. } => stardate_week,
            ColonizationResolvedEvent::BlockedByOwner { stardate_week, .. } => stardate_week,
        };
        match *stamp {
            Some(w) => w,
            None => 1,
        }
    }
}

/// The week stamp of an event of either outcome.
pub open spec fn salvage_stamp(e: SalvageResolvedEvent) -> Option<u8> {
    match e {
        SalvageResolvedEvent::Succeeded { stardate_week, .. } => stardate_week,
        SalvageResolvedEvent::Failed { stardate_week, .. } => stardate_week,
    }
}

impl WeekStamped for SalvageResolvedEvent {
    open spec fn week_stamp(&self) -> Option<u8> {
        salvage_stamp(*self)
    }

    open spec fn week_key(&self) -> u8 {
        match salvage_stamp(*self) {
            Some(w) => w,
            None => 1,
        }
    }

    fn week(&self) -> (r: u8) {
        let stamp = match self {
            SalvageResolvedEvent::Succeeded { stardate_week, .. } => stardate_week,
            SalvageResolvedEvent::Failed { stardate_week, .. } => stardate_week,
        };
        match *stamp {
            Some(w) => w,
            None => 1,
        }
    }
}

/// The week stamp of an event of either outcome.
pub open spec fn encounter_stamp(e: EncounterDispositionEvent) -> Option<u8> {
    match e {
        EncounterDispositionEvent::NoEngagement { stardate_week, .. } => stardate_week,
        EncounterDispositionEvent::Retreated { stardate_week, .. } => stardate_week,
    }
}

impl WeekStamped for EncounterDispositionEvent {
    open spec fn week_stamp(&self) -> Option<u8> {
        encounter_stamp(*self)
    }

    open spec fn week_key(&self) -> u8 {
        match encounter_stamp(*self) {
            Some(w) => w,
            None => 2,
        }
    }

    fn week(&self) -> (r: u8) {
        let stamp = match self {
            EncounterDispositionEvent::NoEngagement { stardate_week, .. } => stardate_week,
            EncounterDispositionEvent::Retreated { stardate_week, .. } => stardate_week,
        };
        match *stamp {
            Some(w) => w,
            None => 2,
        }
    }
}

/// Speed of fleet `idx`, or 0 when there is no such fleet.
pub open spec fn fleet_speed_at(game_data: CoreGameData, idx: int) -> u8 {
    if 0 <= idx < game_data.fleets.records@.len() {
        game_data.fleets.records@[idx].raw@[0x0A]
    } else {
        0
    }
}

/// The week a mission event is stamped with: one year of travel when the
/// fleet is moving, none when it is not, then the mission's timing offset.
pub open spec fn mission_week(kind: Mission, speed: u8) -> u8 {
    clamp_week(base_week(kind, if speed > 0 { 1 } else { 0 }, speed) + code_offset(mission_code(kind)))
}

fn week_for_mission_event(event: &MissionEvent, game_data: &CoreGameData) -> (r: u8)
    ensures
        r == mission_week(event.kind, fleet_speed_at(*game_data, event.fleet_idx as int)),
{
    let fleet_speed = if event.fleet_idx < game_data.fleets.records.len() {
        game_data.fleets.records[event.fleet_idx].current_speed()
    } else {
        0
    };
    let travel_time_years: u8 = if fleet_speed > 0 {
        1
    } else {
        0
    };
    let base = event_base_week(event.kind, travel_time_years, fleet_speed);
    let code = mission_timing_code(event.kind);
    apply_timing_offset(base, code)
}

/// Mission events after their missing weeks are filled in.
pub open spec fn stamped_missions(s: Seq<MissionEvent>, game_data: CoreGameData) -> Seq<MissionEvent> {
    s.map_values(
        |e: MissionEvent|
            if e.stardate_week is None {
                MissionEvent {
                    stardate_week: Some(mission_week(e.kind, fleet_speed_at(game_data, e.fleet_idx as int))),
                    ..e
                }
            } else {
                e
            },
    )
}

fn assign_mission_event_weeks(v: &mut Vec<MissionEvent>, game_data: &CoreGameData)
    ensures
        final(v)@ == stamped_missions(old(v)@, *game_data),
{
    let mut i: usize = 0;
    while i < v.len()
        invariant
            i <= v@.len(),
            v@.len() == old(v)@.len(),
            forall|k: int| i <= k < v@.len() ==> v@[k] == old(v)@[k],
            forall|k: int| 0 <= k < i ==> v@[k] == stamped_missions(old(v)@, *game_data)[k],
        decreases v@.len() - i,
    {
        if v[i].stardate_week.is_none() {
            let w = week_for_mission_event(&v[i], game_data);
            v[i].stardate_week = Some(w);
        }
        i = i + 1;
    }
    assert(v@ =~= stamped_missions(old(v)@, *game_data));
}

/// Fleet battles happen in week 2.
pub open spec fn stamped_battles(s: Seq<FleetBattleEvent>) -> Seq<FleetBattleEvent> {
    s.map_values(
        |e: FleetBattleEvent|
            if e.stardate_week is None {
                FleetBattleEvent { stardate_week: Some(2u8), ..e }
            } else {
                e
            },
    )
}

fn assign_fixed_weeks_battles(v: &mut Vec<FleetBattleEvent>)
    ensures
        final(v)@ == stamped_battles(old(v)@),
{
    let mut i: usize = 0;
    while i < v.len()
        invariant
            i <= v@.len(),
            v@.len() == old(v)@.len(),
            forall|k: int| i <= k < v@.len() ==> v@[k] == old(v)@[k],
            forall|k: int| 0 <= k < i ==> v@[k] == stamped_battles(old(v)@)[k],
        decreases v@.len() - i,
    {
        if v[i].stardate_week.is_none() {
            v[i].stardate_week = Some(2);
        }
        i = i + 1;
    }
    assert(v@ =~= stamped_battles(old(v)@));
}

/// Fleet losses happen in week 2.
pub open spec fn stamped_fleet_losses(s: Seq<FleetDestroyedEvent>) -> Seq<FleetDestroyedEvent> {
    s.map_values(
        |e: FleetDestroyedEvent|
            if e.stardate_week is None {
                FleetDestroyedEvent { stardate_week: Some(2u8), ..e }
            } else {
                e
            },
    )
}

fn assign_fixed_weeks_fleet_losses(v: &mut Vec<FleetDestroyedEvent>)
    ensures
        final(v)@ == stamped_fleet_losses(old(v)@),
{
    let mut i: usize = 0;
    while i < v.len()
        invariant
            i <= v@.len(),
            v@.len() == old(v)@.len(),
            forall|k: int| i <= k < v@.len() ==> v@[k] == old(v)@[k],
            forall|k: int| 0 <= k < i ==> v@[k] == stamped_fleet_losses(old(v)@)[k],
        decreases v@.len() - i,
    {
        if v[i].stardate_week.is_none() {
            v[i].stardate_week = Some(2);
        }
        i = i + 1;
    }
    assert(v@ =~= stamped_fleet_losses(old(v)@));
}

/// Starbase losses happen in week 2.
pub open spec fn stamped_starbase_losses(s: Seq<StarbaseDestroyedEvent>) -> Seq<StarbaseDestroyedEvent> {
    s.map_values(
        |e: StarbaseDestroyedEvent|
            if e.stardate_week is None {
                StarbaseDestroyedEvent { stardate_week: Some(2u8), ..e }
            } else {
                e
            },
    )
}

fn assign_fixed_weeks_starbase_losses(v: &mut Vec<StarbaseDestroyedEvent>)
    ensures
        final(v)@ == stamped_starbase_losses(old(v)@),
{
    let mut i: usize = 0;
    while i < v.len()
        invariant
            i <= v@.len(),
            v@.len() == old(v)@.len(),
            forall|k: int| i <= k < v@.len() ==> v@[k] == old(v)@[k],
            forall|k: int| 0 <= k < i ==> v@[k] == stamped_starbase_losses(old(v)@)[k],
        decreases v@.len() - i,
    {
        if v[i].stardate_week.is_none() {
            v[i].stardate_week = Some(2);
        }
        i = i + 1;
    }
    assert(v@ =~= stamped_starbase_losses(old(v)@));
}

/// Scout contacts happen in week 2.
pub open spec fn stamped_contacts(s: Seq<ScoutContactEvent>) -> Seq<ScoutContactEvent> {
    s.map_values(
        |e: ScoutContactEvent|
            if e.stardate_week is None {
                ScoutContactEvent { stardate_week: Some(2u8), ..e }
            } else {
                e
            },
    )
}

fn assign_fixed_weeks_contacts(v: &mut Vec<ScoutContactEvent>)
    ensures
        final(v)@ == stamped_contacts(old(v)@),
{
    let mut i: usize = 0;
    while i < v.len()
        invariant
            i <= v@.len(),
            v@.len() == old(v)@.len(),
            forall|k: int| i <= k < v@.len() ==> v@[k] == old(v)@[k],
            forall|k: int| 0 <= k < i ==> v@[k] == stamped_contacts(old(v)@)[k],
        decreases v@.len() - i,
    {
        if v[i].stardate_week.is_none() {
            v[i].stardate_week = Some(2);
        }
        i = i + 1;
    }
    assert(v@ =~= stamped_contacts(old(v)@));
}

/// Fleet merges happen in week 1.
pub open spec fn stamped_merges(s: Seq<FleetMergeEvent>) -> Seq<FleetMergeEvent> {
    s.map_values(
        |e: FleetMergeEvent|
            if e.stardate_week is None {
                FleetMergeEvent { stardate_week: Some(1u8), ..e }
            } else {
                e
            },
    )
}

fn assign_fixed_weeks_merges(v: &mut Vec<FleetMergeEvent>)
    ensures
        final(v)@ == stamped_merges(old(v)@),
{
    let mut i: usize = 0;
    while i < v.len()
        invariant
            i <= v@.len(),
            v@.len() == old(v)@.len(),
            forall|k: int| i <= k < v@.len() ==> v@[k] == old(v)@[k],
            forall|k: int| 0 <= k < i ==> v@[k] == stamped_merges(old(v)@)[k],
        decreases v@.len() - i,
    {
        if v[i].stardate_week.is_none() {
            v[i].stardate_week = Some(1);
        }
        i = i + 1;
    }
    assert(v@ =~= stamped_merges(old(v)@));
}

/// Civil disorder is an end-of-year event, week 52.
pub open spec fn stamped_disorders(s: Seq<CivilDisorderEvent>) -> Seq<CivilDisorderEvent> {
    s.map_values(
        |e: CivilDisorderEvent|
            if e.stardate_week is None {
                CivilDisorderEvent { stardate_week: Some(52u8), ..e }
            } else {
                e
            },
    )
}

fn assign_fixed_weeks_disorders(v: &mut Vec<CivilDisorderEvent>)
    ensures
        final(v)@ == stamped_disorders(old(v)@),
{
    let mut i: usize = 0;
    while i < v.len()
        invariant
            i <= v@.len(),
            v@.len() == old(v)@.len(),
            forall|k: int| i <= k < v@.len() ==> v@[k] == old(v)@[k],
            forall|k: int| 0 <= k < i ==> v@[k] == stamped_disorders(old(v)@)[k],
        decreases v@.len() - i,
    {
        if v[i].stardate_week.is_none() {
            v[i].stardate_week = Some(52);
        }
        i = i + 1;
    }
    assert(v@ =~= stamped_disorders(old(v)@));
}

/// Fleet defections are end-of-year events, week 52.
pub open spec fn stamped_defections(s: Seq<FleetDefectionEvent>) -> Seq<FleetDefectionEvent> {
    s.map_values(
        |e: FleetDefectionEvent|
            if e.stardate_week is None {
                FleetDefectionEvent { stardate_week: Some(52u8), ..e }
            } else {
                e
            },
    )
}

fn assign_fixed_weeks_defections(v: &mut Vec<FleetDefectionEvent>)
    ensures
        final(v)@ == stamped_defections(old(v)@),
{
    let mut i: usize = 0;
    while i < v.len()
        invariant
            i <= v@.len(),
            v@.len() == old(v)@.len(),
            forall|k: int| i <= k < v@.len() ==> v@[k] == old(v)@[k],
            forall|k: int| 0 <= k < i ==> v@[k] == stamped_defections(old(v)@)[k],
        decreases v@.len() - i,
    {
        if v[i].stardate_week.is_none() {
            v[i].stardate_week = Some(52);
        }
        i = i + 1;
    }
    assert(v@ =~= stamped_defections(old(v)@));
}

/// Campaign outlooks are end-of-year events, week 52.
pub open spec fn stamped_outlooks(s: Seq<CampaignOutlookEvent>) -> Seq<CampaignOutlookEvent> {
    s.map_values(
        |e: CampaignOutlookEvent|
            if e.stardate_week is None {
                CampaignOutlookEvent { stardate_week: Some(52u8), ..e }
            } else {
                e
            },
    )
}

fn assign_fixed_weeks_outlooks(v: &mut Vec<CampaignOutlookEvent>)
    ensures
        final(v)@ == stamped_outlooks(old(v)@),
{
    let mut i: usize = 0;
    while i < v.len()
        invariant
            i <= v@.len(),
            v@.len() == old(v)@.len(),
            forall|k: int| i <= k < v@.len() ==> v@[k] == old(v)@[k],
            forall|k: int| 0 <= k < i ==> v@[k] == stamped_outlooks(old(v)@)[k],
        decreases v@.len() - i,
    {
        if v[i].stardate_week.is_none() {
            v[i].stardate_week = Some(52);
        }
        i = i + 1;
    }
    assert(v@ =~= stamped_outlooks(old(v)@));
}

/// Campaign outcomes are end-of-year events, week 52.
pub open spec fn stamped_outcomes(s: Seq<CampaignOutcomeEvent>) -> Seq<CampaignOutcomeEvent> {
    s.map_values(
        |e: CampaignOutcomeEvent|
            if e.stardate_week is None {
                CampaignOutcomeEvent { stardate_week: Some(52u8), ..e }
            } else {
                e
            },
    )
}

fn assign_fixed_weeks_outcomes(v: &mut Vec<CampaignOutcomeEvent>)
    ensures
        final(v)@ == stamped_outcomes(old(v)@),
{
    let mut i: usize = 0;
    while i < v.len()
        invariant
            i <= v@.len(),
            v@.len() == old(v)@.len(),
            forall|k: int| i <= k < v@.len() ==> v@[k] == old(v)@[k],
            forall|k: int| 0 <= k < i ==> v@[k] == stamped_outcomes(old(v)@)[k],
        decreases v@.len() - i,
    {
        if v[i].stardate_week.is_none() {
            v[i].stardate_week = Some(52);
        }
        i = i + 1;
    }
    assert(v@ =~= stamped_outcomes(old(v)@));
}

/// Diplomatic escalations happen in week 2.
pub open spec fn stamped_escalations(s: Seq<DiplomaticEscalationEvent>) -> Seq<DiplomaticEscalationEvent> {
    s.map_values(
        |e: DiplomaticEscalationEvent|
            if e.stardate_week is None {
                DiplomaticEscalationEvent { stardate_week: Some(2u8), ..e }
            } else {
                e
            },
    )
}

fn assign_fixed_weeks_escalations(v: &mut Vec<DiplomaticEscalationEvent>)
    ensures
        final(v)@ == stamped_escalations(old(v)@),
{
    let mut i: usize = 0;
    while i < v.len()
        invariant
            i <= v@.len(),
            v@.len() == old(v)@.len(),
            forall|k: int| i <= k < v@.len() ==> v@[k] == old(v)@[k],
            forall|k: int| 0 <= k < i ==> v@[k] == stamped_escalations(old(v)@)[k],
        decreases v@.len() - i,
    {
        if v[i].stardate_week.is_none() {
            v[i].stardate_week = Some(2);
        }
        i = i + 1;
    }
    assert(v@ =~= stamped_escalations(old(v)@));
}


/// First week among the mission events of kind `kinds` (invade/blitz when
/// `invasion`, else successful bombardment) by `empire` against `planet`;
/// week 2 when there is none. Unset mission weeks count as 1.
pub open spec fn attack_week(missions: Seq<MissionEvent>, invasion: bool, planet: usize, empire: u8) -> u8
    decreases missions.len(),
{
    if missions.len() == 0 {
        2
    } else {
        let e = missions[0];
        let kind_ok = if invasion {
            e.kind == Mission::InvadeWorld || e.kind == Mission::BlitzWorld
        } else {
            e.kind == Mission::BombardWorld && e.outcome == MissionOutcome::Succeeded
        };
        let target = match e.planet_idx {
            Some(p) => p,
            None => usize::MAX,
        };
        if kind_ok && target == planet && e.owner_empire_raw == empire {
            match e.stardate_week {
                Some(w) => w,
                None => 1,
            }
        } else {
            attack_week(missions.drop_first(), invasion, planet, empire)
        }
    }
}

fn find_attack_week(missions: &Vec<MissionEvent>, invasion: bool, planet: usize, empire: u8) -> (r: u8)
    ensures
        r == attack_week(missions@, invasion, planet, empire),
{
    let mut i: usize = 0;
    assert(missions@.skip(0) =~= missions@);
    while i < missions.len()
        invariant
            i <= missions@.len(),
            attack_week(missions@, invasion, planet, empire) == attack_week(
                missions@.skip(i as int),
                invasion,
                planet,
                empire,
            ),
        decreases missions@.len() - i,
    {
        let e = missions[i];
        let kind_ok = if invasion {
            e.kind == Mission::InvadeWorld || e.kind == Mission::BlitzWorld
        } else {
            e.kind == Mission::BombardWorld && e.outcome == MissionOutcome::Succeeded
        };
        let target = match e.planet_idx {
            Some(p) => p,
            None => usize::MAX,
        };
        assert(missions@.skip(i as int)[0] == e);
        if kind_ok && target == planet && e.owner_empire_raw == empire {
            return match e.stardate_week {
                Some(w) => w,
                None => 1,
            };
        }
        assert(missions@.skip(i as int).drop_first() =~= missions@.skip(i + 1));
        i = i + 1;
    }
    2
}

/// Assault reports after their missing weeks are taken from the invasion
/// mission that caused them.
pub open spec fn stamped_assaults(s: Seq<AssaultReportEvent>, missions: Seq<MissionEvent>) -> Seq<
    AssaultReportEvent,
> {
    s.map_values(
        |e: AssaultReportEvent|
            if e.stardate_week is None {
                AssaultReportEvent {
                    stardate_week: Some(attack_week(missions, true, e.planet_idx, e.attacker_empire_raw)),
                    ..e
                }
            } else {
                e
            },
    )
}

fn assign_assault_event_weeks(v: &mut Vec<AssaultReportEvent>, missions: &Vec<MissionEvent>)
    ensures
        final(v)@ == stamped_assaults(old(v)@, missions@),
{
    let mut i: usize = 0;
    while i < v.len()
        invariant
            i <= v@.len(),
            v@.len() == old(v)@.len(),
            forall|k: int| i <= k < v@.len() ==> v@[k] == old(v)@[k],
            forall|k: int| 0 <= k < i ==> v@[k] == stamped_assaults(old(v)@, missions@)[k],
        decreases v@.len() - i,
    {
        if v[i].stardate_week.is_none() {
            let w = find_attack_week(missions, true, v[i].planet_idx, v[i].attacker_empire_raw);
            v[i].stardate_week = Some(w);
        }
        i = i + 1;
    }
    assert(v@ =~= stamped_assaults(old(v)@, missions@));
}

/// Bombardment events after their missing weeks are taken from the
/// successful bombardment mission that caused them.
pub open spec fn stamped_bombards(s: Seq<BombardEvent>, missions: Seq<MissionEvent>) -> Seq<BombardEvent> {
    s.map_values(
        |e: BombardEvent|
            if e.stardate_week is None {
                BombardEvent {
                    stardate_week: Some(attack_week(missions, false, e.planet_idx, e.attacker_empire_raw)),
                    ..e
                }
            } else {
                e
            },
    )
}

fn assign_bombard_event_weeks(v: &mut Vec<BombardEvent>, missions: &Vec<MissionEvent>)
    ensures
        final(v)@ == stamped_bombards(old(v)@, missions@),
{
    let mut i: usize = 0;
    while i < v.len()
        invariant
            i <= v@.len(),
            v@.len() == old(v)@.len(),
            forall|k: int| i <= k < v@.len() ==> v@[k] == old(v)@[k],
            forall|k: int| 0 <= k < i ==> v@[k] == stamped_bombards(old(v)@, missions@)[k],
        decreases v@.len() - i,
    {
        if v[i].stardate_week.is_none() {
            let w = find_attack_week(missions, false, v[i].planet_idx, v[i].attacker_empire_raw);
            v[i].stardate_week = Some(w);
        }
        i = i + 1;
    }
    assert(v@ =~= stamped_bombards(old(v)@, missions@));
}

/// First week among the successful assaults on `planet`; week 2 when there is
/// none. Unset assault weeks count as 2.
pub open spec fn capture_week(assaults: Seq<AssaultReportEvent>, planet: usize) -> u8
    decreases assaults.len(),
{
    if assaults.len() == 0 {
        2
    } else if assaults[0].outcome == MissionOutcome::Succeeded && assaults[0].planet_idx == planet {
        match assaults[0].stardate_week {
            Some(w) => w,
            None => 2,
        }
    } else {
        capture_week(assaults.drop_first(), planet)
    }
}

fn find_capture_week(assaults: &Vec<AssaultReportEvent>, planet: usize) -> (r: u8)
    ensures
        r == capture_week(assaults@, planet),
{
    let mut i: usize = 0;
    assert(assaults@.skip(0) =~= assaults@);
    while i < assaults.len()
        invariant
            i <= assaults@.len(),
            capture_week(assaults@, planet) == capture_week(assaults@.skip(i as int), planet),
        decreases assaults@.len() - i,
    {
        assert(assaults@.skip(i as int)[0] == assaults@[i as int]);
        if assaults[i].outcome == MissionOutcome::Succeeded && assaults[i].planet_idx == planet {
            return match assaults[i].stardate_week {
                Some(w) => w,
                None => 2,
            };
        }
        assert(assaults@.skip(i as int).drop_first() =~= assaults@.skip(i + 1));
        i = i + 1;
    }
    2
}

/// Ownership changes after their missing weeks are taken from the
/// successful assault on the same world.
pub open spec fn stamped_ownership(s: Seq<PlanetOwnershipChangeEvent>, assaults: Seq<AssaultReportEvent>) -> Seq<
    PlanetOwnershipChangeEvent,
> {
    s.map_values(
        |e: PlanetOwnershipChangeEvent|
            if e.stardate_week is None {
                PlanetOwnershipChangeEvent {
                    stardate_week: Some(capture_week(assaults, e.planet_idx)),
                    ..e
                }
            } else {
                e
            },
    )
}

fn assign_ownership_change_weeks(v: &mut Vec<PlanetOwnershipChangeEvent>, assaults: &Vec<AssaultReportEvent>)
    ensures
        final(v)@ == stamped_ownership(old(v)@, assaults@),
{
    let mut i: usize = 0;
    while i < v.len()
        invariant
            i <= v@.len(),
            v@.len() == old(v)@.len(),
            forall|k: int| i <= k < v@.len() ==> v@[k] == old(v)@[k],
            forall|k: int| 0 <= k < i ==> v@[k] == stamped_ownership(old(v)@, assaults@)[k],
        decreases v@.len() - i,
    {
        if v[i].stardate_week.is_none() {
            let w = find_capture_week(assaults, v[i].planet_idx);
            v[i].stardate_week = Some(w);
        }
        i = i + 1;
    }
    assert(v@ =~= stamped_ownership(old(v)@, assaults@));
}

/// First week among the mission events of `kind` by fleet `fleet_idx`;
/// week 1 when there is none. Unset mission weeks count as 1.
pub open spec fn fleet_mission_week(missions: Seq<MissionEvent>, kind: Mission, fleet_idx: usize) -> u8
    decreases missions.len(),
{
    if missions.len() == 0 {
        1
    } else if missions[0].kind == kind && missions[0].fleet_idx == fleet_idx {
        match missions[0].stardate_week {
            Some(w) => w,
            None => 1,
        }
    } else {
        fleet_mission_week(missions.drop_first(), kind, fleet_idx)
    }
}

fn find_fleet_mission_week(missions: &Vec<MissionEvent>, kind: Mission, fleet_idx: usize) -> (r: u8)
    ensures
        r == fleet_mission_week(missions@, kind, fleet_idx),
{
    let mut i: usize = 0;
    assert(missions@.skip(0) =~= missions@);
    while i < missions.len()
        invariant
            i <= missions@.len(),
            fleet_mission_week(missions@, kind, fleet_idx) == fleet_mission_week(
                missions@.skip(i as int),
                kind,
                fleet_idx,
            ),
        decreases missions@.len() - i,
    {
        assert(missions@.skip(i as int)[0] == missions@[i as int]);
        if missions[i].kind == kind && missions[i].fleet_idx == fleet_idx {
            return match missions[i].stardate_week {
                Some(w) => w,
                None => 1,
            };
        }
        assert(missions@.skip(i as int).drop_first() =~= missions@.skip(i + 1));
        i = i + 1;
    }
    1
}

/// Colonization results after their missing weeks are taken from the
/// colonize mission of the same fleet.
pub open spec fn stamped_colonizations(s: Seq<ColonizationResolvedEvent>, missions: Seq<MissionEvent>) -> Seq<
    ColonizationResolvedEvent,
> {
    s.map_values(
        |e: ColonizationResolvedEvent|
            match e {
                ColonizationResolvedEvent::Succeeded {
                    fleet_idx,
                    planet_idx,
                    colonizer_empire_raw,
                    stardate_week: None,
                } => ColonizationResolvedEvent::Succeeded {
                    fleet_idx,
                    planet_idx,
                    colonizer_empire_raw,
                    stardate_week: Some(fleet_mission_week(missions, Mission::ColonizeWorld, fleet_idx)),
                },
                ColonizationResolvedEvent::BlockedByOwner {
                    fleet_idx,
                    planet_idx,
                    colonizer_empire_raw,
                    owner_empire_raw,
                    stardate_week: None,
                } => ColonizationResolvedEvent::BlockedByOwner {
                    fleet_idx,
                    planet_idx,
                    colonizer_empire_raw,
                    owner_empire_raw,
                    stardate_week: Some(fleet_mission_week(missions, Mission::ColonizeWorld, fleet_idx)),
                },
                _ => e,
            },
    )
}

fn assign_colonization_weeks(v: &mut Vec<ColonizationResolvedEvent>, missions: &Vec<MissionEvent>)
    ensures
        final(v)@ == stamped_colonizations(old(v)@, missions@),
{
    let mut i: usize = 0;
    while i < v.len()
        invariant
            i <= v@.len(),
            v@.len() == old(v)@.len(),
            forall|k: int| i <= k < v@.len() ==> v@[k] == old(v)@[k],
            forall|k: int| 0 <= k < i ==> v@[k] == stamped_colonizations(old(v)@, missions@)[k],
        decreases v@.len() - i,
    {
        let e = v[i];
        let updated = match e {
            ColonizationResolvedEvent::Succeeded {
                fleet_idx,
                planet_idx,
                colonizer_empire_raw,
                stardate_week: None,
            } => ColonizationResolvedEvent::Succeeded {
                fleet_idx,
                planet_idx,
                colonizer_empire_raw,
                stardate_week: Some(find_fleet_mission_week(missions, Mission::ColonizeWorld, fleet_idx)),
            },
            ColonizationResolvedEvent::BlockedByOwner {
                fleet_idx,
                planet_idx,
                colonizer_empire_raw,
                owner_empire_raw,
                stardate_week: None,
            } => ColonizationResolvedEvent::BlockedByOwner {
                fleet_idx,
                planet_idx,
                colonizer_empire_raw,
                owner_empire_raw,
                stardate_week: Some(find_fleet_mission_week(missions, Mission::ColonizeWorld, fleet_idx)),
            },
            _ => e,
        };
        v.set(i, updated);
        i = i + 1;
    }
    assert(v@ =~= stamped_colonizations(old(v)@, missions@));
}

/// Salvage results after their missing weeks are taken from the salvage
/// mission of the same fleet.
pub open spec fn stamped_salvage(s: Seq<SalvageResolvedEvent>, missions: Seq<MissionEvent>) -> Seq<
    SalvageResolvedEvent,
> {
    s.map_values(
        |e: SalvageResolvedEvent|
            match e {
                SalvageResolvedEvent::Succeeded {
                    fleet_idx,
                    owner_empire_raw,
                    planet_idx,
                    coords,
                    recovered_points,
                    stardate_week: None,
                } => SalvageResolvedEvent::Succeeded {
                    fleet_idx,
                    owner_empire_raw,
                    planet_idx,
                    coords,
                    recovered_points,
                    stardate_week: Some(fleet_mission_week(missions, Mission::Salvage, fleet_idx)),
                },
                SalvageResolvedEvent::Failed {
                    fleet_idx,
                    owner_empire_raw,
                    planet_idx,
                    coords,
                    reason,
                    stardate_week: None,
                } => SalvageResolvedEvent::Failed {
                    fleet_idx,
                    owner_empire_raw,
                    planet_idx,
                    coords,
                    reason,
                    stardate_week: Some(fleet_mission_week(missions, Mission::Salvage, fleet_idx)),
                },
                _ => e,
            },
    )
}

fn assign_salvage_weeks(v: &mut Vec<SalvageResolvedEvent>, missions: &Vec<MissionEvent>)
    ensures
        final(v)@ == stamped_salvage(old(v)@, missions@),
{
    let mut i: usize = 0;
    while i < v.len()
        invariant
            i <= v@.len(),
            v@.len() == old(v)@.len(),
            forall|k: int| i <= k < v@.len() ==> v@[k] == old(v)@[k],
            forall|k: int| 0 <= k < i ==> v@[k] == stamped_salvage(old(v)@, missions@)[k],
        decreases v@.len() - i,
    {
        let e = v[i];
        let updated = match e {
            SalvageResolvedEvent::Succeeded {
                fleet_idx,
                owner_empire_raw,
                planet_idx,
                coords,
                recovered_points,
                stardate_week: None,
            } => SalvageResolvedEvent::Succeeded {
                fleet_idx,
                owner_empire_raw,
                planet_idx,
                coords,
                recovered_points,
                stardate_week: Some(find_fleet_mission_week(missions, Mission::Salvage, fleet_idx)),
            },
            SalvageResolvedEvent::Failed {
                fleet_idx,
                owner_empire_raw,
                planet_idx,
                coords,
                reason,
                stardate_week: None,
            } => SalvageResolvedEvent::Failed {
                fleet_idx,
                owner_empire_raw,
                planet_idx,
                coords,
                reason,
                stardate_week: Some(find_fleet_mission_week(missions, Mission::Salvage, fleet_idx)),
            },
            _ => e,
        };
        v.set(i, updated);
        i = i + 1;
    }
    assert(v@ =~= stamped_salvage(old(v)@, missions@));
}

/// Encounter dispositions after their missing weeks are set to week 2.
pub open spec fn stamped_encounters(s: Seq<EncounterDispositionEvent>) -> Seq<EncounterDispositionEvent> {
    s.map_values(
        |e: EncounterDispositionEvent|
            match e {
                EncounterDispositionEvent::NoEngagement {
                    fleet_idx,
                    owner_empire_raw,
                    mission,
                    coords,
                    target_empire_raw,
                    target_fleet_id,
                    small_vessels,
                    medium_vessels,
                    large_vessels,
                    reason,
                    stardate_week: None,
                } => EncounterDispositionEvent::NoEngagement {
                    fleet_idx,
                    owner_empire_raw,
                    mission,
                    coords,
                    target_empire_raw,
                    target_fleet_id,
                    small_vessels,
                    medium_vessels,
                    large_vessels,
                    reason,
                    stardate_week: Some(2),
                },
                EncounterDispositionEvent::Retreated {
                    fleet_idx,
                    owner_empire_raw,
                    mission,
                    coords,
                    target_empire_raw,
                    target_fleet_id,
                    enemy_initial,
                    retreat_target_coords,
                    losses_sustained,
                    enemy_losses_inflicted,
                    reason,
                    stardate_week: None,
                } => EncounterDispositionEvent::Retreated {
                    fleet_idx,
                    owner_empire_raw,
                    mission,
                    coords,
                    target_empire_raw,
                    target_fleet_id,
                    enemy_initial,
                    retreat_target_coords,
                    losses_sustained,
                    enemy_losses_inflicted,
                    reason,
                    stardate_week: Some(2),
                },
                _ => e,
            },
    )
}

fn assign_encounter_disposition_weeks(v: &mut Vec<EncounterDispositionEvent>)
    ensures
        final(v)@ == stamped_encounters(old(v)@),
{
    let mut i: usize = 0;
    while i < v.len()
        invariant
            i <= v@.len(),
            v@.len() == old(v)@.len(),
            forall|k: int| i <= k < v@.len() ==> v@[k] == old(v)@[k],
            forall|k: int| 0 <= k < i ==> v@[k] == stamped_encounters(old(v)@)[k],
        decreases v@.len() - i,
    {
        let e = v[i];
        let updated = match e {
            EncounterDispositionEvent::NoEngagement {
                fleet_idx,
                owner_empire_raw,
                mission,
                coords,
                target_empire_raw,
                target_fleet_id,
                small_vessels,
                medium_vessels,
                large_vessels,
                reason,
                stardate_week: None,
            } => EncounterDispositionEvent::NoEngagement {
                fleet_idx,
                owner_empire_raw,
                mission,
                coords,
                target_empire_raw,
                target_fleet_id,
                small_vessels,
                medium_vessels,
                large_vessels,
                reason,
                stardate_week: Some(2),
            },
            EncounterDispositionEvent::Retreated {
                fleet_idx,
                owner_empire_raw,
                mission,
                coords,
                target_empire_raw,
                target_fleet_id,
                enemy_initial,
                retreat_target_coords,
                losses_sustained,
                enemy_losses_inflicted,
                reason,
                stardate_week: None,
            } => EncounterDispositionEvent::Retreated {
                fleet_idx,
                owner_empire_raw,
                mission,
                coords,
                target_empire_raw,
                target_fleet_id,
                enemy_initial,
                retreat_target_coords,
                losses_sustained,
                enemy_losses_inflicted,
                reason,
                stardate_week: Some(2),
            },
            _ => e,
        };
        v.set(i, updated);
        i = i + 1;
    }
    assert(v@ =~= stamped_encounters(old(v)@));
}

/// The events after `canonicalize_events`: every list stamped as described
/// by the `stamped_*` functions, then stably sorted by week.
pub open spec fn canonicalized(new: MaintenanceEvents, old: MaintenanceEvents, game_data: CoreGameData) -> bool {
    let missions = stamped_missions(old.mission_events@, game_data);
    let assaults = stamped_assaults(old.assault_report_events@, missions);
    &&& stable_week_sort_of(new.mission_events@, missions)
    &&& stable_week_sort_of(new.fleet_battle_events@, stamped_battles(old.fleet_battle_events@))
    &&& stable_week_sort_of(new.fleet_destroyed_events@, stamped_fleet_losses(old.fleet_destroyed_events@))
    &&& stable_week_sort_of(new.starbase_destroyed_events@, stamped_starbase_losses(old.starbase_destroyed_events@))
    &&& stable_week_sort_of(new.assault_report_events@, assaults)
    &&& stable_week_sort_of(new.bombard_events@, stamped_bombards(old.bombard_events@, missions))
    &&& stable_week_sort_of(new.scout_contact_events@, stamped_contacts(old.scout_contact_events@))
    &&& stable_week_sort_of(new.ownership_change_events@, stamped_ownership(old.ownership_change_events@, assaults))
    &&& stable_week_sort_of(new.fleet_merge_events@, stamped_merges(old.fleet_merge_events@))
    &&& stable_week_sort_of(new.colonization_events@, stamped_colonizations(old.colonization_events@, missions))
    &&& stable_week_sort_of(new.salvage_events@, stamped_salvage(old.salvage_events@, missions))
    &&& stable_week_sort_of(new.encounter_disposition_events@, stamped_encounters(old.encounter_disposition_events@))
    &&& stable_week_sort_of(new.civil_disorder_events@, stamped_disorders(old.civil_disorder_events@))
    &&& stable_week_sort_of(new.campaign_outlook_events@, stamped_outlooks(old.campaign_outlook_events@))
    &&& stable_week_sort_of(new.campaign_outcome_events@, stamped_outcomes(old.campaign_outcome_events@))
    &&& stable_week_sort_of(new.fleet_defection_events@, stamped_defections(old.fleet_defection_events@))
    &&& stable_week_sort_of(new.diplomatic_escalation_events@, stamped_escalations(old.diplomatic_escalation_events@))
    &&& new.planet_intel_events == old.planet_intel_events
    &&& new.join_host_events == old.join_host_events
    &&& new.mission_retarget_events == old.mission_retarget_events
}

/// Fills in the week of every event that has none and sorts each event list
/// by week, keeping same-week events in their order.
pub fn canonicalize_events(events: &mut MaintenanceEvents, game_data: &CoreGameData)
    ensures
        canonicalized(*final(events), *old(events), *game_data),
{
    assign_mission_event_weeks(&mut events.mission_events, game_data);
    assign_fixed_weeks_battles(&mut events.fleet_battle_events);
    assign_fixed_weeks_fleet_losses(&mut events.fleet_destroyed_events);
    assign_fixed_weeks_starbase_losses(&mut events.starbase_destroyed_events);
    assign_assault_event_weeks(&mut events.assault_report_events, &events.mission_events);
    assign_bombard_event_weeks(&mut events.bombard_events, &events.mission_events);
    assign_fixed_weeks_contacts(&mut events.scout_contact_events);
    assign_ownership_change_weeks(&mut events.ownership_change_events, &events.assault_report_events);
    assign_fixed_weeks_merges(&mut events.fleet_merge_events);
    assign_colonization_weeks(&mut events.colonization_events, &events.mission_events);
    assign_salvage_weeks(&mut events.salvage_events, &events.mission_events);
    assign_encounter_disposition_weeks(&mut events.encounter_disposition_events);
    assign_fixed_weeks_disorders(&mut events.civil_disorder_events);
    assign_fixed_weeks_defections(&mut events.fleet_defection_events);
    assign_fixed_weeks_outlooks(&mut events.campaign_outlook_events);
    assign_fixed_weeks_outcomes(&mut events.campaign_outcome_events);
    assign_fixed_weeks_escalations(&mut events.diplomatic_escalation_events);

    sort_by_week(&mut events.mission_events);
    sort_by_week(&mut events.fleet_battle_events);
    sort_by_week(&mut events.fleet_destroyed_events);
    sort_by_week(&mut events.starbase_destroyed_events);
    sort_by_week(&mut events.assault_report_events);
    sort_by_week(&mut events.bombard_events);
    sort_by_week(&mut events.scout_contact_events);
    sort_by_week(&mut events.ownership_change_events);
    sort_by_week(&mut events.fleet_merge_events);
    sort_by_week(&mut events.colonization_events);
    sort_by_week(&mut events.salvage_events);
    sort_by_week(&mut events.encounter_disposition_events);
    sort_by_week(&mut events.civil_disorder_events);
    sort_by_week(&mut events.campaign_outlook_events);
    sort_by_week(&mut events.campaign_outcome_events);
    sort_by_week(&mut events.fleet_defection_events);
    sort_by_week(&mut events.diplomatic_escalation_events);
}


/// Stamping gives every event a week and keeps the stamps already set.
proof fn lemma_stamping(o: MaintenanceEvents, gd: CoreGameData)
    ensures
        stamps_of(stamped_missions(o.mission_events@, gd), o.mission_events@),
        stamps_of(stamped_battles(o.fleet_battle_events@), o.fleet_battle_events@),
        stamps_of(stamped_fleet_losses(o.fleet_destroyed_events@), o.fleet_destroyed_events@),
        stamps_of(stamped_starbase_losses(o.starbase_destroyed_events@), o.starbase_destroyed_events@),
        stamps_of(stamped_assaults(o.assault_report_events@, stamped_missions(o.mission_events@, gd)), o.assault_report_events@),
        stamps_of(stamped_bombards(o.bombard_events@, stamped_missions(o.mission_events@, gd)), o.bombard_events@),
        stamps_of(stamped_contacts(o.scout_contact_events@), o.scout_contact_events@),
        stamps_of(stamped_ownership(o.ownership_change_events@, stamped_assaults(o.assault_report_events@, stamped_missions(o.mission_events@, gd))), o.ownership_change_events@),
        stamps_of(stamped_merges(o.fleet_merge_events@), o.fleet_merge_events@),
        stamps_of(stamped_colonizations(o.colonization_events@, stamped_missions(o.mission_events@, gd)), o.colonization_events@),
        stamps_of(stamped_salvage(o.salvage_events@, stamped_missions(o.mission_events@, gd)), o.salvage_events@),
        stamps_of(stamped_encounters(o.encounter_disposition_events@), o.encounter_disposition_events@),
        stamps_of(stamped_disorders(o.civil_disorder_events@), o.civil_disorder_events@),
        stamps_of(stamped_outlooks(o.campaign_outlook_events@), o.campaign_outlook_events@),
        stamps_of(stamped_outcomes(o.campaign_outcome_events@), o.campaign_outcome_events@),
        stamps_of(stamped_defections(o.fleet_defection_events@), o.fleet_defection_events@),
        stamps_of(stamped_escalations(o.diplomatic_escalation_events@), o.diplomatic_escalation_events@),
{
}

/// Canonicalization settles every event list: it holds the events it held,
/// each as often, those that had a week keeping it and the others stamped,
/// every event now carries a week, and the list is in week order.
pub proof fn lemma_canonicalized_lists_settled(n: MaintenanceEvents, o: MaintenanceEvents, gd: CoreGameData)
    requires
        canonicalized(n, o, gd),
    ensures
        settled_list(n.mission_events@, stamped_missions(o.mission_events@, gd)),
        settled_list(n.fleet_battle_events@, stamped_battles(o.fleet_battle_events@)),
        settled_list(n.fleet_destroyed_events@, stamped_fleet_losses(o.fleet_destroyed_events@)),
        settled_list(n.starbase_destroyed_events@, stamped_starbase_losses(o.starbase_destroyed_events@)),
        settled_list(n.assault_report_events@, stamped_assaults(o.assault_report_events@, stamped_missions(o.mission_events@, gd))),
        settled_list(n.bombard_events@, stamped_bombards(o.bombard_events@, stamped_missions(o.mission_events@, gd))),
        settled_list(n.scout_contact_events@, stamped_contacts(o.scout_contact_events@)),
        settled_list(n.ownership_change_events@, stamped_ownership(o.ownership_change_events@, stamped_assaults(o.assault_report_events@, stamped_missions(o.mission_events@, gd)))),
        settled_list(n.fleet_merge_events@, stamped_merges(o.fleet_merge_events@)),
        settled_list(n.colonization_events@, stamped_colonizations(o.colonization_events@, stamped_missions(o.mission_events@, gd))),
        settled_list(n.salvage_events@, stamped_salvage(o.salvage_events@, stamped_missions(o.mission_events@, gd))),
        settled_list(n.encounter_disposition_events@, stamped_encounters(o.encounter_disposition_events@)),
        settled_list(n.civil_disorder_events@, stamped_disorders(o.civil_disorder_events@)),
        settled_list(n.campaign_outlook_events@, stamped_outlooks(o.campaign_outlook_events@)),
        settled_list(n.campaign_outcome_events@, stamped_outcomes(o.campaign_outcome_events@)),
        settled_list(n.fleet_defection_events@, stamped_defections(o.fleet_defection_events@)),
        settled_list(n.diplomatic_escalation_events@, stamped_escalations(o.diplomatic_escalation_events@)),
{
    lemma_stamping(o, gd);
    lemma_sorted_stamps_settle(n.mission_events@, stamped_missions(o.mission_events@, gd));
    lemma_sorted_stamps_settle(n.fleet_battle_events@, stamped_battles(o.fleet_battle_events@));
    lemma_sorted_stamps_settle(n.fleet_destroyed_events@, stamped_fleet_losses(o.fleet_destroyed_events@));
    lemma_sorted_stamps_settle(n.starbase_destroyed_events@, stamped_starbase_losses(o.starbase_destroyed_events@));
    lemma_sorted_stamps_settle(n.assault_report_events@, stamped_assaults(o.assault_report_events@, stamped_missions(o.mission_events@, gd)));
    lemma_sorted_stamps_settle(n.bombard_events@, stamped_bombards(o.bombard_events@, stamped_missions(o.mission_events@, gd)));
    lemma_sorted_stamps_settle(n.scout_contact_events@, stamped_contacts(o.scout_contact_events@));
    lemma_sorted_stamps_settle(n.ownership_change_events@, stamped_ownership(o.ownership_change_events@, stamped_assaults(o.assault_report_events@, stamped_missions(o.mission_events@, gd))));
    lemma_sorted_stamps_settle(n.fleet_merge_events@, stamped_merges(o.fleet_merge_events@));
    lemma_sorted_stamps_settle(n.colonization_events@, stamped_colonizations(o.colonization_events@, stamped_missions(o.mission_events@, gd)));
    lemma_sorted_stamps_settle(n.salvage_events@, stamped_salvage(o.salvage_events@, stamped_missions(o.mission_events@, gd)));
    lemma_sorted_stamps_settle(n.encounter_disposition_events@, stamped_encounters(o.encounter_disposition_events@));
    lemma_sorted_stamps_settle(n.civil_disorder_events@, stamped_disorders(o.civil_disorder_events@));
    lemma_sorted_stamps_settle(n.campaign_outlook_events@, stamped_outlooks(o.campaign_outlook_events@));
    lemma_sorted_stamps_settle(n.campaign_outcome_events@, stamped_outcomes(o.campaign_outcome_events@));
    lemma_sorted_stamps_settle(n.fleet_defection_events@, stamped_defections(o.fleet_defection_events@));
    lemma_sorted_stamps_settle(n.diplomatic_escalation_events@, stamped_escalations(o.diplomatic_escalation_events@));
}

/// Canonicalizing twice gives what canonicalizing once gave.
pub proof fn lemma_canonicalize_idempotent(
    n2: MaintenanceEvents,
    n1: MaintenanceEvents,
    o: MaintenanceEvents,
    gd: CoreGameData,
)
    requires
        canonicalized(n1, o, gd),
        canonicalized(n2, n1, gd),
    ensures
        n2.mission_events@ == n1.mission_events@,
        n2.fleet_battle_events@ == n1.fleet_battle_events@,
        n2.fleet_destroyed_events@ == n1.fleet_destroyed_events@,
        n2.starbase_destroyed_events@ == n1.starbase_destroyed_events@,
        n2.assault_report_events@ == n1.assault_report_events@,
        n2.bombard_events@ == n1.bombard_events@,
        n2.scout_contact_events@ == n1.scout_contact_events@,
        n2.ownership_change_events@ == n1.ownership_change_events@,
        n2.fleet_merge_events@ == n1.fleet_merge_events@,
        n2.colonization_events@ == n1.colonization_events@,
        n2.salvage_events@ == n1.salvage_events@,
        n2.encounter_disposition_events@ == n1.encounter_disposition_events@,
        n2.civil_disorder_events@ == n1.civil_disorder_events@,
        n2.campaign_outlook_events@ == n1.campaign_outlook_events@,
        n2.campaign_outcome_events@ == n1.campaign_outcome_events@,
        n2.fleet_defection_events@ == n1.fleet_defection_events@,
        n2.diplomatic_escalation_events@ == n1.diplomatic_escalation_events@,
        n2.planet_intel_events == n1.planet_intel_events,
        n2.join_host_events == n1.join_host_events,
        n2.mission_retarget_events == n1.mission_retarget_events,
{
    lemma_canonicalized_lists_settled(n1, o, gd);
    lemma_stamping(n1, gd);
    lemma_stamps_of_stamped(stamped_missions(n1.mission_events@, gd), n1.mission_events@);
    lemma_stamps_of_stamped(stamped_battles(n1.fleet_battle_events@), n1.fleet_battle_events@);
    lemma_stamps_of_stamped(stamped_fleet_losses(n1.fleet_destroyed_events@), n1.fleet_destroyed_events@);
    lemma_stamps_of_stamped(stamped_starbase_losses(n1.starbase_destroyed_events@), n1.starbase_destroyed_events@);
    lemma_stamps_of_stamped(stamped_assaults(n1.assault_report_events@, stamped_missions(n1.mission_events@, gd)), n1.assault_report_events@);
    lemma_stamps_of_stamped(stamped_bombards(n1.bombard_events@, stamped_missions(n1.mission_events@, gd)), n1.bombard_events@);
    lemma_stamps_of_stamped(stamped_contacts(n1.scout_contact_events@), n1.scout_contact_events@);
    lemma_stamps_of_stamped(stamped_ownership(n1.ownership_change_events@, stamped_assaults(n1.assault_report_events@, stamped_missions(n1.mission_events@, gd))), n1.ownership_change_events@);
    lemma_stamps_of_stamped(stamped_merges(n1.fleet_merge_events@), n1.fleet_merge_events@);
    lemma_stamps_of_stamped(stamped_colonizations(n1.colonization_events@, stamped_missions(n1.mission_events@, gd)), n1.colonization_events@);
    lemma_stamps_of_stamped(stamped_salvage(n1.salvage_events@, stamped_missions(n1.mission_events@, gd)), n1.salvage_events@);
    lemma_stamps_of_stamped(stamped_encounters(n1.encounter_disposition_events@), n1.encounter_disposition_events@);
    lemma_stamps_of_stamped(stamped_disorders(n1.civil_disorder_events@), n1.civil_disorder_events@);
    lemma_stamps_of_stamped(stamped_outlooks(n1.campaign_outlook_events@), n1.campaign_outlook_events@);
    lemma_stamps_of_stamped(stamped_outcomes(n1.campaign_outcome_events@), n1.campaign_outcome_events@);
    lemma_stamps_of_stamped(stamped_defections(n1.fleet_defection_events@), n1.fleet_defection_events@);
    lemma_stamps_of_stamped(stamped_escalations(n1.diplomatic_escalation_events@), n1.diplomatic_escalation_events@);
    lemma_settled_sort_again(n2.mission_events@, n1.mission_events@);
    lemma_settled_sort_again(n2.fleet_battle_events@, n1.fleet_battle_events@);
    lemma_settled_sort_again(n2.fleet_destroyed_events@, n1.fleet_destroyed_events@);
    lemma_settled_sort_again(n2.starbase_destroyed_events@, n1.starbase_destroyed_events@);
    lemma_settled_sort_again(n2.assault_report_events@, n1.assault_report_events@);
    lemma_settled_sort_again(n2.bombard_events@, n1.bombard_events@);
    lemma_settled_sort_again(n2.scout_contact_events@, n1.scout_contact_events@);
    lemma_settled_sort_again(n2.ownership_change_events@, n1.ownership_change_events@);
    lemma_settled_sort_again(n2.fleet_merge_events@, n1.fleet_merge_events@);
    lemma_settled_sort_again(n2.colonization_events@, n1.colonization_events@);
    lemma_settled_sort_again(n2.salvage_events@, n1.salvage_events@);
    lemma_settled_sort_again(n2.encounter_disposition_events@, n1.encounter_disposition_events@);
    lemma_settled_sort_again(n2.civil_disorder_events@, n1.civil_disorder_events@);
    lemma_settled_sort_again(n2.campaign_outlook_events@, n1.campaign_outlook_events@);
    lemma_settled_sort_again(n2.campaign_outcome_events@, n1.campaign_outcome_events@);
    lemma_settled_sort_again(n2.fleet_defection_events@, n1.fleet_defection_events@);
    lemma_settled_sort_again(n2.diplomatic_escalation_events@, n1.diplomatic_escalation_events@);
}

/// `stamp` filled in with week `w` when it is unset.
pub open spec fn filled_week(stamp: Option<u8>, w: u8) -> Option<u8> {
    match stamp {
        Some(x) => Some(x),
        None => Some(w),
    }
}

/// `n` holds as many events as `o`; each of its events carries the week
/// of an event of `o`, or `w` where that one had none; and each event of
/// `o` without a week comes out as an event with week `w`.
pub open spec fn weeks_filled_with<T: WeekStamped>(n: Seq<T>, o: Seq<T>, w: u8) -> bool {
    &&& n.len() == o.len()
    &&& forall|k: int|
        0 <= k < n.len() ==> exists|j: int|
            0 <= j < o.len() && (#[trigger] n[k]).week_stamp() == filled_week(o[j].week_stamp(), w)
    &&& forall|j: int|
        0 <= j < o.len() && (#[trigger] o[j]).week_stamp() is None ==> exists|k: int|
            0 <= k < n.len() && n[k].week_stamp() == Some(w)
}

proof fn lemma_weeks_filled<T: WeekStamped>(n: Seq<T>, s: Seq<T>, o: Seq<T>, w: u8)
    requires
        n.to_multiset() == s.to_multiset(),
        s.len() == o.len(),
        forall|j: int| 0 <= j < s.len() ==> (#[trigger] s[j]).week_stamp() == filled_week(o[j].week_stamp(), w),
    ensures
        weeks_filled_with(n, o, w),
{
    broadcast use vstd::seq_lib::to_multiset_contains, vstd::seq_lib::to_multiset_len;

    assert(n.len() == n.to_multiset().len());
    assert(s.len() == s.to_multiset().len());
    assert forall|k: int| 0 <= k < n.len() implies exists|j: int|
        0 <= j < o.len() && (#[trigger] n[k]).week_stamp() == filled_week(o[j].week_stamp(), w) by {
        assert(n.contains(n[k]));
        assert(n.to_multiset().contains(n[k]));
        assert(s.contains(n[k]));
        let j = choose|j: int| 0 <= j < s.len() && s[j] == n[k];
        assert(s[j].week_stamp() == filled_week(o[j].week_stamp(), w));
    }
    assert forall|j: int| 0 <= j < o.len() && (#[trigger] o[j]).week_stamp() is None implies exists|k: int|
        0 <= k < n.len() && n[k].week_stamp() == Some(w) by {
        assert(s.contains(s[j]));
        assert(s.to_multiset().contains(s[j]));
        assert(n.contains(s[j]));
        let k = choose|k: int| 0 <= k < n.len() && n[k] == s[j];
        assert(n[k].week_stamp() == s[j].week_stamp());
    }
}

/// Canonicalization dates the events whose week is fixed: battles, ship and
/// starbase losses, contact reports, encounter dispositions and diplomatic
/// escalations in week 2 (the combat week, so a loss falls in the week of
/// its battle), fleet merges in week 1, civil disorder, defections and the
/// campaign's outlook and outcome in week 52. Events that had a week keep
/// it.
pub proof fn lemma_fixed_event_weeks(n: MaintenanceEvents, o: MaintenanceEvents, gd: CoreGameData)
    requires
        canonicalized(n, o, gd),
    ensures
        weeks_filled_with(n.fleet_battle_events@, o.fleet_battle_events@, 2),
        weeks_filled_with(n.fleet_destroyed_events@, o.fleet_destroyed_events@, 2),
        weeks_filled_with(n.starbase_destroyed_events@, o.starbase_destroyed_events@, 2),
        weeks_filled_with(n.scout_contact_events@, o.scout_contact_events@, 2),
        weeks_filled_with(n.encounter_disposition_events@, o.encounter_disposition_events@, 2),
        weeks_filled_with(n.diplomatic_escalation_events@, o.diplomatic_escalation_events@, 2),
        weeks_filled_with(n.fleet_merge_events@, o.fleet_merge_events@, 1),
        weeks_filled_with(n.civil_disorder_events@, o.civil_disorder_events@, 52),
        weeks_filled_with(n.fleet_defection_events@, o.fleet_defection_events@, 52),
        weeks_filled_with(n.campaign_outlook_events@, o.campaign_outlook_events@, 52),
        weeks_filled_with(n.campaign_outcome_events@, o.campaign_outcome_events@, 52),
{
    lemma_canonicalized_lists_settled(n, o, gd);
    lemma_weeks_filled(n.fleet_battle_events@, stamped_battles(o.fleet_battle_events@), o.fleet_battle_events@, 2);
    lemma_weeks_filled(n.fleet_destroyed_events@, stamped_fleet_losses(o.fleet_destroyed_events@), o.fleet_destroyed_events@, 2);
    lemma_weeks_filled(n.starbase_destroyed_events@, stamped_starbase_losses(o.starbase_destroyed_events@), o.starbase_destroyed_events@, 2);
    lemma_weeks_filled(n.scout_contact_events@, stamped_contacts(o.scout_contact_events@), o.scout_contact_events@, 2);
    lemma_weeks_filled(n.encounter_disposition_events@, stamped_encounters(o.encounter_disposition_events@), o.encounter_disposition_events@, 2);
    lemma_weeks_filled(n.diplomatic_escalation_events@, stamped_escalations(o.diplomatic_escalation_events@), o.diplomatic_escalation_events@, 2);
    lemma_weeks_filled(n.fleet_merge_events@, stamped_merges(o.fleet_merge_events@), o.fleet_merge_events@, 1);
    lemma_weeks_filled(n.civil_disorder_events@, stamped_disorders(o.civil_disorder_events@), o.civil_disorder_events@, 52);
    lemma_weeks_filled(n.fleet_defection_events@, stamped_defections(o.fleet_defection_events@), o.fleet_defection_events@, 52);
    lemma_weeks_filled(n.campaign_outlook_events@, stamped_outlooks(o.campaign_outlook_events@), o.campaign_outlook_events@, 52);
    lemma_weeks_filled(n.campaign_outcome_events@, stamped_outcomes(o.campaign_outcome_events@), o.campaign_outcome_events@, 52);
}

/// The week an unstamped mission event of `kind` gets when its fleet
/// moves at `speed`: week 1 for standing missions (patrol, guards,
/// rendezvous); otherwise a base of ten weeks per point of speed (at most
/// 50, week 1 when the fleet is idle) plus 21 weeks for scouting and
/// viewing, 2 weeks for the rest, never past week 52.
pub open spec fn scheduled_mission_week(kind: Mission, speed: u8) -> u8 {
    let base: int = if speed == 0 {
        1
    } else if 10 * speed < 50 {
        10 * speed
    } else {
        50
    };
    if kind == Mission::PatrolSector || kind == Mission::GuardStarbase || kind == Mission::GuardBlockadeWorld
        || kind == Mission::RendezvousSector {
        1
    } else if kind == Mission::ScoutSector || kind == Mission::ScoutSolarSystem || kind == Mission::ViewWorld {
        if base + 21 > 52 {
            52
        } else {
            (base + 21) as u8
        }
    } else {
        (base + 2) as u8
    }
}

/// Canonicalization keeps each mission event, giving those without a week
/// the week of their schedule for the speed of their fleet (0 for a fleet
/// that does not exist): every event it returns is an input event, with
/// that week where the input had none.
pub proof fn lemma_mission_event_weeks(n: MaintenanceEvents, o: MaintenanceEvents, gd: CoreGameData)
    requires
        canonicalized(n, o, gd),
    ensures
        n.mission_events@.len() == o.mission_events@.len(),
        forall|k: int|
            0 <= k < n.mission_events@.len() ==> exists|j: int|
                0 <= j < o.mission_events@.len() && (#[trigger] n.mission_events@[k] == if o.mission_events@[j].stardate_week is None {
                    MissionEvent {
                        stardate_week: Some(
                            scheduled_mission_week(
                                o.mission_events@[j].kind,
                                fleet_speed_at(gd, o.mission_events@[j].fleet_idx as int),
                            ),
                        ),
                        ..o.mission_events@[j]
                    }
                } else {
                    o.mission_events@[j]
                }),
{
    broadcast use vstd::seq_lib::to_multiset_contains, vstd::seq_lib::to_multiset_len;

    lemma_canonicalized_lists_settled(n, o, gd);
    let st = stamped_missions(o.mission_events@, gd);
    assert(n.mission_events@.len() == n.mission_events@.to_multiset().len());
    assert(st.len() == st.to_multiset().len());
    assert forall|k: int| 0 <= k < n.mission_events@.len() implies exists|j: int|
        0 <= j < o.mission_events@.len() && (#[trigger] n.mission_events@[k] == if o.mission_events@[j].stardate_week is None {
            MissionEvent {
                stardate_week: Some(
                    scheduled_mission_week(
                        o.mission_events@[j].kind,
                        fleet_speed_at(gd, o.mission_events@[j].fleet_idx as int),
                    ),
                ),
                ..o.mission_events@[j]
            }
        } else {
            o.mission_events@[j]
        }) by {
        let x = n.mission_events@[k];
        assert(n.mission_events@.contains(x));
        assert(n.mission_events@.to_multiset().contains(x));
        assert(st.to_multiset().contains(x));
        assert(st.contains(x));
        let j = choose|j: int| 0 <= j < st.len() && st[j] == x;
        let e = o.mission_events@[j];
        lemma_mission_week_schedule(e.kind, if fleet_speed_at(gd, e.fleet_idx as int) > 0 { 1 } else { 0 }, fleet_speed_at(gd, e.fleet_idx as int));
    }
}

} // verus!
