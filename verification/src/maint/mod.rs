//! Yearly maintenance: event records, their timing and their ordering.
pub mod campaign;
pub mod colonization;
pub mod combat;
pub mod defection;
pub mod canonicalize;
pub mod economics;
pub mod gate;
pub mod movement;
pub mod events;
pub mod ordering;
pub mod removal;
pub mod retarget;
pub mod sanitize;
pub mod timing;
pub mod transit;


pub use canonicalize::canonicalize_events;
pub use economics::process_autopilot_ai;
pub use events::{
    AssaultReportEvent, BombardEvent, CampaignOutcomeEvent, CampaignOutlookEvent,
    CivilDisorderEvent, ColonizationResolvedEvent, ContactReportSource, DiplomacyOverride,
    DiplomaticEscalationEvent, EncounterDispositionEvent, EncounterDispositionReason,
    FleetBattleEvent, FleetBattlePerspective, FleetDefectionEvent, FleetDestroyedEvent,
    FleetMergeEvent, JoinMissionHostEvent, MaintenanceEvents, Mission, MissionEvent,
    MissionOutcome, MissionRetargetEvent, PlanetIntelEvent, PlanetOwnershipChangeEvent,
    SalvageFailureReason, SalvageResolvedEvent, ScoutContactEvent, ShipLosses,
    StarbaseDestroyedEvent,
};
