//! Campaign settings and session leases.
use crate::support::{trim_whitespace, whitespace_trim_bounds};
use crate::text::{chars_of, decimal, push_char, push_decimal, push_decimal_u64, push_str};
use vstd::prelude::*;

verus! {

/// Theme used when a campaign names none.
pub const DEFAULT_CAMPAIGN_THEME_KEY: &'static str = "tokyo_night";
/// Minutes between scheduled maintenance runs by default (one day).
pub const DEFAULT_MAINTENANCE_INTERVAL_MINUTES: u32 = 24 * 60;

/// A seat held for a player under an alias.
#[derive(Debug, Clone, PartialEq, Eq)]
pub struct SeatReservation {
    pub player_record_index_1_based: usize,
    pub alias: String,
}

/// Why the campaign store refused a value of its data model.
#[derive(Debug, Clone, PartialEq, Eq)]
pub enum CampaignStoreError {
    /// The value breaks a rule of the store; the text says which.
    InvalidState(String),
}

/// A campaign's settings.
#[derive(Debug, Clone, PartialEq, Eq)]
pub struct CampaignSettings {
    pub slug: String,
    pub game_name: String,
    pub default_theme_key: String,
    pub snoop_enabled: bool,
    pub session_max_idle_minutes: u8,
    pub session_minimum_time_minutes: u8,
    pub session_local_timeout: bool,
    pub session_remote_timeout: bool,
    pub inactivity_purge_after_turns: u8,
    pub inactivity_autopilot_after_turns: u8,
    pub maintenance_enabled: bool,
    pub maintenance_interval_minutes: u32,
    pub maintenance_next_due_unix_seconds: Option<u64>,
    pub reservations: Vec<SeatReservation>,
}

/// Where a player's session stands.
#[derive(Debug, Clone, Copy, PartialEq, Eq, Structural)]
pub enum SessionLeaseState {
    PendingSsh,
    Active,
}

/// A player's claim on a seat for one session.
#[derive(Debug, Clone, PartialEq, Eq)]
pub struct SessionLease {
    pub session_token: String,
    pub player_record_index_1_based: usize,
    pub player_npub: String,
    pub state: SessionLeaseState,
    pub started_at_unix_seconds: u64,
    pub last_heartbeat_at_unix_seconds: u64,
    pub expires_at_unix_seconds: u64,
}

// ---------------------------------------------------------------------------
// Text helpers
// ---------------------------------------------------------------------------

/// `char::to_ascii_lowercase`.
pub open spec fn ascii_lower(c: char) -> char {
    if 'A' <= c <= 'Z' {
        ((c as u32) + 32) as char
    } else {
        c
    }
}

/// `str::to_ascii_lowercase`.
pub open spec fn lower_text(s: Seq<char>) -> Seq<char> {
    s.map_values(|c: char| ascii_lower(c))
}

/// A text that `str::trim` leaves empty.
pub open spec fn is_blank_text(s: Seq<char>) -> bool {
    trim_whitespace(s).len() == 0
}

fn lower_char(c: char) -> (r: char)
    ensures
        r == ascii_lower(c),
{
    if 'A' <= c && c <= 'Z' {
        ((c as u8) + 32) as char
    } else {
        c
    }
}

/// The characters of `s.trim()`, ASCII letters lowered.
fn folded_trimmed(s: &str) -> (r: Vec<char>)
    ensures
        r@ == lower_text(trim_whitespace(s@)),
{
    let (lo, hi) = whitespace_trim_bounds(s);
    let cs = chars_of(s);
    let mut r: Vec<char> = Vec::new();
    let mut i: usize = lo;
    while i < hi
        invariant
            lo <= i <= hi <= cs@.len(),
            cs@ == s@,
            r@ == lower_text(cs@.subrange(lo as int, i as int)),
        decreases hi - i,
    {
        r.push(lower_char(cs[i]));
        i = i + 1;
        assert(r@ =~= lower_text(cs@.subrange(lo as int, i as int)));
    }
    r
}

/// The characters of `s`, ASCII letters lowered.
fn folded(s: &str) -> (r: Vec<char>)
    ensures
        r@ == lower_text(s@),
{
    let cs = chars_of(s);
    let mut r: Vec<char> = Vec::new();
    let mut i: usize = 0;
    while i < cs.len()
        invariant
            i <= cs@.len(),
            cs@ == s@,
            r@ == lower_text(cs@.take(i as int)),
        decreases cs@.len() - i,
    {
        r.push(lower_char(cs[i]));
        i = i + 1;
        assert(r@ =~= lower_text(cs@.take(i as int)));
    }
    assert(cs@.take(i as int) =~= cs@);
    r
}

fn same_chars(a: &Vec<char>, b: &Vec<char>) -> (r: bool)
    ensures
        r == (a@ == b@),
{
    if a.len() != b.len() {
        return false;
    }
    let mut i: usize = 0;
    while i < a.len()
        invariant
            i <= a@.len() == b@.len(),
            forall|k: int| 0 <= k < i ==> a@[k] == b@[k],
        decreases a@.len() - i,
    {
        if a[i] != b[i] {
            return false;
        }
        i = i + 1;
    }
    assert(a@ =~= b@);
    true
}

fn is_blank(s: &str) -> (r: bool)
    ensures
        r == is_blank_text(s@),
{
    let (lo, hi) = whitespace_trim_bounds(s);
    lo == hi
}

/// A theme key from a theme file's name: trimmed, dashes made underscores,
/// ASCII letters lowered.
pub open spec fn theme_key_text(raw: Seq<char>) -> Seq<char> {
    lower_text(trim_whitespace(raw)).map_values(|c: char| if c == '-' { '_' } else { c })
}

/// Normalizes a theme key: trimmed, `-` replaced by `_`, lowercased.
pub fn normalize_theme_key(raw: &str) -> (r: String)
    ensures
        r@ == theme_key_text(raw@),
{
    let cs = folded_trimmed(raw);
    let mut out = String::new();
    let mut i: usize = 0;
    while i < cs.len()
        invariant
            i <= cs@.len(),
            out@ == cs@.take(i as int).map_values(|c: char| if c == '-' { '_' } else { c }),
        decreases cs@.len() - i,
    {
        let c = cs[i];
        push_char(&mut out, if c == '-' { '_' } else { c });
        i = i + 1;
        assert(out@ =~= cs@.take(i as int).map_values(|c: char| if c == '-' { '_' } else { c }));
    }
    assert(cs@.take(i as int) =~= cs@);
    out
}

// ---------------------------------------------------------------------------
// Reservations
// ---------------------------------------------------------------------------

/// What is wrong with reservation `k`, given that those before it passed:
/// no player 0, no player twice, a visible alias, and no alias twice
/// (trimmed, ignoring ASCII case).
pub open spec fn reservation_problem_at(rs: Seq<SeatReservation>, k: int) -> Option<Seq<char>> {
    let r = rs[k];
    if r.player_record_index_1_based == 0 {
        Some("reservation player must be >= 1"@)
    } else if exists|j: int|
        0 <= j < k && #[trigger] rs[j].player_record_index_1_based == r.player_record_index_1_based {
        Some("duplicate reservation for player "@ + decimal(r.player_record_index_1_based as nat))
    } else if is_blank_text(r.alias@) {
        Some("reservation alias must contain at least one visible character"@)
    } else if exists|j: int|
        0 <= j < k && lower_text(trim_whitespace(#[trigger] rs[j].alias@)) == lower_text(
            trim_whitespace(r.alias@),
        ) {
        Some("duplicate reservation alias '"@ + r.alias@ + "'"@)
    } else {
        None
    }
}

/// The first problem among the first `n` reservations.
pub open spec fn reservations_problem(rs: Seq<SeatReservation>, n: int) -> Option<Seq<char>>
    decreases n,
{
    if n <= 0 {
        None
    } else {
        match reservations_problem(rs, n - 1) {
            Some(m) => Some(m),
            None => reservation_problem_at(rs, n - 1),
        }
    }
}

/// Once a problem is found among the first `a` reservations, it stays the
/// first problem among more of them.
proof fn lemma_problem_stays(rs: Seq<SeatReservation>, a: int, b: int)
    requires
        a <= b,
        reservations_problem(rs, a) is Some,
    ensures
        reservations_problem(rs, b) == reservations_problem(rs, a),
    decreases b - a,
{
    if b > a {
        lemma_problem_stays(rs, a, b - 1);
    }
}

/// The refusal carrying `msg`.
pub open spec fn refused<T>(r: Result<T, CampaignStoreError>, msg: Seq<char>) -> bool {
    r matches Err(CampaignStoreError::InvalidState(m)) && m@ == msg
}

fn invalid(msg: &str) -> (e: CampaignStoreError)
    ensures
        e matches CampaignStoreError::InvalidState(m) && m@ == msg@,
{
    let mut m = String::new();
    push_str(&mut m, msg);
    CampaignStoreError::InvalidState(m)
}

/// Checks the seat reservations in order; the first problem found is
/// returned.
pub fn validate_reservations(reservations: &Vec<SeatReservation>) -> (r: Result<(), CampaignStoreError>)
    ensures
        match reservations_problem(reservations@, reservations@.len() as int) {
            None => r is Ok,
            Some(msg) => refused(r, msg),
        },
{
    let n = reservations.len();
    let mut k: usize = 0;
    while k < n
        invariant
            k <= n == reservations@.len(),
            reservations_problem(reservations@, k as int) is None,
        decreases n - k,
    {
        let r = &reservations[k];
        let player = r.player_record_index_1_based;
        if player == 0 {
            proof {
                lemma_problem_stays(reservations@, k + 1, n as int);
            }
            return Err(invalid("reservation player must be >= 1"));
        }
        let mut j: usize = 0;
        while j < k
            invariant
                j <= k < n == reservations@.len(),
                player == reservations@[k as int].player_record_index_1_based,
                player != 0,
                reservations_problem(reservations@, k as int) is None,
                forall|t: int| 0 <= t < j ==> #[trigger] reservations@[t].player_record_index_1_based != player,
            decreases k - j,
        {
            if reservations[j].player_record_index_1_based == player {
                let mut m = String::new();
                push_str(&mut m, "duplicate reservation for player ");
                push_decimal_u64(&mut m, player as u64);
                proof {
                    assert(m@ =~= "duplicate reservation for player "@ + decimal(player as nat));
                    assert(reservations@[j as int].player_record_index_1_based == player);
                    assert(reservation_problem_at(reservations@, k as int) == Some(m@));
                    assert(reservations_problem(reservations@, k + 1) == Some(m@));
                    lemma_problem_stays(reservations@, k + 1, n as int);
                }
                return Err(CampaignStoreError::InvalidState(m));
            }
            j = j + 1;
        }
        if is_blank(r.alias.as_str()) {
            proof {
                lemma_problem_stays(reservations@, k + 1, n as int);
            }
            return Err(invalid("reservation alias must contain at least one visible character"));
        }
        let alias = folded_trimmed(r.alias.as_str());
        let mut j: usize = 0;
        while j < k
            invariant
                j <= k < n == reservations@.len(),
                alias@ == lower_text(trim_whitespace(reservations@[k as int].alias@)),
                player == reservations@[k as int].player_record_index_1_based,
                player != 0,
                r.alias@ == reservations@[k as int].alias@,
                !is_blank_text(reservations@[k as int].alias@),
                reservations_problem(reservations@, k as int) is None,
                forall|t: int| 0 <= t < k ==> #[trigger] reservations@[t].player_record_index_1_based != player,
                forall|t: int|
                    0 <= t < j ==> lower_text(trim_whitespace(#[trigger] reservations@[t].alias@))
                        != alias@,
            decreases k - j,
        {
            let other = folded_trimmed(reservations[j].alias.as_str());
            if same_chars(&other, &alias) {
                let mut m = String::new();
                push_str(&mut m, "duplicate reservation alias '");
                push_str(&mut m, r.alias.as_str());
                push_str(&mut m, "'");
                assert(m@ =~= "duplicate reservation alias '"@ + r.alias@ + "'"@);
                proof {
                    assert(lower_text(trim_whitespace(reservations@[j as int].alias@)) == alias@);
                    assert(reservation_problem_at(reservations@, k as int) == Some(m@));
                    assert(reservations_problem(reservations@, k + 1) == Some(m@));
                    lemma_problem_stays(reservations@, k + 1, n as int);
                }
                return Err(CampaignStoreError::InvalidState(m));
            }
            j = j + 1;
        }
        k = k + 1;
    }
    Ok(())
}

// ---------------------------------------------------------------------------
// Settings
// ---------------------------------------------------------------------------

/// `"<field> must be <= <max>, got <value>"`.
pub open spec fn bound_message(field: Seq<char>, max: nat, value: nat) -> Seq<char> {
    field + " must be <= "@ + decimal(max) + ", got "@ + decimal(value)
}

/// The first rule that `s` breaks: blank slug, game name or theme; idle or
/// minimum session time over 120 minutes; purge or autopilot delay over 100
/// turns; a zero maintenance interval; or a reservation problem.
pub open spec fn settings_problem(s: CampaignSettings) -> Option<Seq<char>> {
    if is_blank_text(s.slug@) {
        Some("campaign slug must not be blank"@)
    } else if is_blank_text(s.game_name@) {
        Some("campaign game_name must not be blank"@)
    } else if is_blank_text(s.default_theme_key@) {
        Some("campaign default_theme_key must not be blank"@)
    } else if s.session_max_idle_minutes > 120 {
        Some(bound_message("session_max_idle_minutes"@, 120, s.session_max_idle_minutes as nat))
    } else if s.session_minimum_time_minutes > 120 {
        Some(bound_message("session_minimum_time_minutes"@, 120, s.session_minimum_time_minutes as nat))
    } else if s.inactivity_purge_after_turns > 100 {
        Some(bound_message("inactivity_purge_after_turns"@, 100, s.inactivity_purge_after_turns as nat))
    } else if s.inactivity_autopilot_after_turns > 100 {
        Some(
            bound_message(
                "inactivity_autopilot_after_turns"@,
                100,
                s.inactivity_autopilot_after_turns as nat,
            ),
        )
    } else if s.maintenance_interval_minutes == 0 {
        Some("maintenance_interval_minutes must be >= 1"@)
    } else {
        reservations_problem(s.reservations@, s.reservations@.len() as int)
    }
}

fn bound_error(field: &str, max: u32, value: u8) -> (e: CampaignStoreError)
    ensures
        e matches CampaignStoreError::InvalidState(m) && m@ == bound_message(field@, max as nat, value as nat),
{
    let mut m = String::new();
    push_str(&mut m, field);
    push_str(&mut m, " must be <= ");
    push_decimal(&mut m, max);
    push_str(&mut m, ", got ");
    push_decimal(&mut m, value as u32);
    assert(m@ =~= bound_message(field@, max as nat, value as nat));
    CampaignStoreError::InvalidState(m)
}

impl CampaignSettings {
    /// Settings for a new campaign: the default theme, snooping on, ten
    /// minutes idle time, remote timeout on, no purge or autopilot delay,
    /// maintenance off with a one-day interval and no due time, no
    /// reservations.
    pub fn new(slug: &str, game_name: &str) -> (r: Self)
        ensures
            r.slug@ == slug@,
            r.game_name@ == game_name@,
            r.default_theme_key@ == DEFAULT_CAMPAIGN_THEME_KEY@,
            r.snoop_enabled,
            r.session_max_idle_minutes == 10,
            r.session_minimum_time_minutes == 0,
            !r.session_local_timeout,
            r.session_remote_timeout,
            r.inactivity_purge_after_turns == 0,
            r.inactivity_autopilot_after_turns == 0,
            !r.maintenance_enabled,
            r.maintenance_interval_minutes == DEFAULT_MAINTENANCE_INTERVAL_MINUTES,
            r.maintenance_next_due_unix_seconds is None,
            r.reservations@.len() == 0,
    {
        let mut s = String::new();
        push_str(&mut s, slug);
        let mut g = String::new();
        push_str(&mut g, game_name);
        let mut t = String::new();
        push_str(&mut t, DEFAULT_CAMPAIGN_THEME_KEY);
        Self {
            slug: s,
            game_name: g,
            default_theme_key: t,
            snoop_enabled: true,
            session_max_idle_minutes: 10,
            session_minimum_time_minutes: 0,
            session_local_timeout: false,
            session_remote_timeout: true,
            inactivity_purge_after_turns: 0,
            inactivity_autopilot_after_turns: 0,
            maintenance_enabled: false,
            maintenance_interval_minutes: DEFAULT_MAINTENANCE_INTERVAL_MINUTES,
            maintenance_next_due_unix_seconds: None,
            reservations: Vec::new(),
        }
    }

    /// The settings themselves when they keep every rule, else the first
    /// rule they break.
    pub fn validate(self) -> (r: Result<Self, CampaignStoreError>)
        ensures
            match settings_problem(self) {
                None => r == Ok::<Self, CampaignStoreError>(self),
                Some(msg) => refused(r, msg),
            },
    {
        if is_blank(self.slug.as_str()) {
            return Err(invalid("campaign slug must not be blank"));
        }
        if is_blank(self.game_name.as_str()) {
            return Err(invalid("campaign game_name must not be blank"));
        }
        if is_blank(self.default_theme_key.as_str()) {
            return Err(invalid("campaign default_theme_key must not be blank"));
        }
        if self.session_max_idle_minutes > 120 {
            return Err(bound_error("session_max_idle_minutes", 120, self.session_max_idle_minutes));
        }
        if self.session_minimum_time_minutes > 120 {
            return Err(
                bound_error("session_minimum_time_minutes", 120, self.session_minimum_time_minutes),
            );
        }
        if self.inactivity_purge_after_turns > 100 {
            return Err(
                bound_error("inactivity_purge_after_turns", 100, self.inactivity_purge_after_turns),
            );
        }
        if self.inactivity_autopilot_after_turns > 100 {
            return Err(
                bound_error(
                    "inactivity_autopilot_after_turns",
                    100,
                    self.inactivity_autopilot_after_turns,
                ),
            );
        }
        if self.maintenance_interval_minutes == 0 {
            return Err(invalid("maintenance_interval_minutes must be >= 1"));
        }
        match validate_reservations(&self.reservations) {
            Ok(()) => Ok(self),
            Err(e) => Err(e),
        }
    }

    /// The first reservation whose alias equals `alias` trimmed, ignoring
    /// ASCII case.
    pub fn reservation_for_alias(&self, alias: &str) -> (r: Option<&SeatReservation>)
        ensures
            match r {
                Some(found) => exists|k: int|
                    0 <= k < self.reservations@.len() && *found == self.reservations@[k]
                        && lower_text(self.reservations@[k].alias@) == lower_text(trim_whitespace(alias@))
                        && forall|j: int|
                        0 <= j < k ==> lower_text(#[trigger] self.reservations@[j].alias@) != lower_text(
                            trim_whitespace(alias@),
                        ),
                None => forall|j: int|
                    0 <= j < self.reservations@.len() ==> lower_text(
                        #[trigger] self.reservations@[j].alias@,
                    ) != lower_text(trim_whitespace(alias@)),
            },
    {
        let wanted = folded_trimmed(alias);
        let mut k: usize = 0;
        while k < self.reservations.len()
            invariant
                k <= self.reservations@.len(),
                wanted@ == lower_text(trim_whitespace(alias@)),
                forall|j: int|
                    0 <= j < k ==> lower_text(#[trigger] self.reservations@[j].alias@) != wanted@,
            decreases self.reservations@.len() - k,
        {
            let have = folded(self.reservations[k].alias.as_str());
            if same_chars(&have, &wanted) {
                return Some(&self.reservations[k]);
            }
            k = k + 1;
        }
        None
    }

    /// The first reservation for player `player_record_index_1_based`.
    pub fn reservation_for_player(&self, player_record_index_1_based: usize) -> (r: Option<
        &SeatReservation,
    >)
        ensures
            match r {
                Some(found) => exists|k: int|
                    0 <= k < self.reservations@.len() && *found == self.reservations@[k]
                        && self.reservations@[k].player_record_index_1_based
                        == player_record_index_1_based && forall|j: int|
                        0 <= j < k ==> (#[trigger] self.reservations@[j]).player_record_index_1_based
                            != player_record_index_1_based,
                None => forall|j: int|
                    0 <= j < self.reservations@.len() ==> (
                    #[trigger] self.reservations@[j]).player_record_index_1_based
                        != player_record_index_1_based,
            },
    {
        let mut k: usize = 0;
        while k < self.reservations.len()
            invariant
                k <= self.reservations@.len(),
                forall|j: int|
                    0 <= j < k ==> (#[trigger] self.reservations@[j]).player_record_index_1_based
                        != player_record_index_1_based,
            decreases self.reservations@.len() - k,
        {
            if self.reservations[k].player_record_index_1_based == player_record_index_1_based {
                return Some(&self.reservations[k]);
            }
            k = k + 1;
        }
        None
    }

    /// Refuses the first reservation for a player beyond `player_count`.
    pub fn validate_reservations_for_player_count(&self, player_count: usize) -> (r: Result<
        (),
        CampaignStoreError,
    >)
        ensures
            (forall|j: int|
                0 <= j < self.reservations@.len() ==> (
                #[trigger] self.reservations@[j]).player_record_index_1_based <= player_count)
                <==> r is Ok,
            r is Err ==> exists|k: int|
                0 <= k < self.reservations@.len() && self.reservations@[k].player_record_index_1_based
                    > player_count && (forall|j: int|
                    0 <= j < k ==> (#[trigger] self.reservations@[j]).player_record_index_1_based
                        <= player_count) && refused(
                    r,
                    "reservation player "@ + decimal(
                        self.reservations@[k].player_record_index_1_based as nat,
                    ) + " exceeds player count "@ + decimal(player_count as nat),
                ),
    {
        let mut k: usize = 0;
        while k < self.reservations.len()
            invariant
                k <= self.reservations@.len(),
                forall|j: int|
                    0 <= j < k ==> (#[trigger] self.reservations@[j]).player_record_index_1_based
                        <= player_count,
            decreases self.reservations@.len() - k,
        {
            let p = self.reservations[k].player_record_index_1_based;
            if p > player_count {
                let mut m = String::new();
                push_str(&mut m, "reservation player ");
                push_decimal_u64(&mut m, p as u64);
                push_str(&mut m, " exceeds player count ");
                push_decimal_u64(&mut m, player_count as u64);
                let ghost msg = "reservation player "@ + decimal(p as nat) + " exceeds player count "@
                    + decimal(player_count as nat);
                assert(m@ =~= msg);
                return Err(CampaignStoreError::InvalidState(m));
            }
            k = k + 1;
        }
        Ok(())
    }

    /// Maintenance is due: it is enabled and its due time has come.
    pub fn maintenance_due_at(&self, now_unix_seconds: u64) -> (r: bool)
        ensures
            r == (self.maintenance_enabled && match self.maintenance_next_due_unix_seconds {
                Some(due) => due <= now_unix_seconds,
                None => false,
            }),
    {
        self.maintenance_enabled && match self.maintenance_next_due_unix_seconds {
            Some(due) => due <= now_unix_seconds,
            None => false,
        }
    }
}

/// The name under which a lease state is stored.
pub open spec fn lease_state_name(s: SessionLeaseState) -> Seq<char> {
    match s {
        SessionLeaseState::PendingSsh => "pending_ssh"@,
        SessionLeaseState::Active => "active"@,
    }
}

impl SessionLeaseState {
    /// The name under which the state is stored.
    pub fn as_str(self) -> (r: &'static str)
        ensures
            r@ == lease_state_name(self),
    {
        match self {
            SessionLeaseState::PendingSsh => "pending_ssh",
            SessionLeaseState::Active => "active",
        }
    }

    /// The state stored under `value`, if any.
    pub fn parse(value: &str) -> (r: Option<Self>)
        ensures
            r == if value@ == "pending_ssh"@ {
                Some(SessionLeaseState::PendingSsh)
            } else if value@ == "active"@ {
                Some(SessionLeaseState::Active)
            } else {
                None::<SessionLeaseState>
            },
    {
        if crate::text::str_eq(value, "pending_ssh") {
            Some(SessionLeaseState::PendingSsh)
        } else if crate::text::str_eq(value, "active") {
            Some(SessionLeaseState::Active)
        } else {
            None
        }
    }
}

/// A lease state read back from its stored name is the same state.
pub proof fn lemma_lease_state_roundtrip(s: SessionLeaseState)
    ensures
        (if lease_state_name(s) == "pending_ssh"@ {
            Some(SessionLeaseState::PendingSsh)
        } else if lease_state_name(s) == "active"@ {
            Some(SessionLeaseState::Active)
        } else {
            None::<SessionLeaseState>
        }) == Some(s),
{
    reveal_strlit("pending_ssh");
    reveal_strlit("active");
    assert("pending_ssh"@.len() != "active"@.len());
}

/// Reservations name distinct players, none zero, and distinct aliases
/// (compared trimmed, ignoring ASCII case), none blank.
pub open spec fn reservations_valid(rs: Seq<SeatReservation>, n: int) -> bool {
    &&& forall|k: int|
        0 <= k < n ==> (#[trigger] rs[k]).player_record_index_1_based != 0 && !is_blank_text(rs[k].alias@)
    &&& forall|j: int, k: int|
        0 <= j < k < n ==> (#[trigger] rs[j]).player_record_index_1_based
            != (#[trigger] rs[k]).player_record_index_1_based && lower_text(trim_whitespace(rs[j].alias@))
            != lower_text(trim_whitespace(rs[k].alias@))
}

proof fn lemma_reservations_problem_none(rs: Seq<SeatReservation>, n: int)
    requires
        0 <= n <= rs.len(),
    ensures
        reservations_problem(rs, n) is None <==> reservations_valid(rs, n),
    decreases n,
{
    if n > 0 {
        lemma_reservations_problem_none(rs, n - 1);
        if reservations_problem(rs, n) is None {
            assert(reservation_problem_at(rs, n - 1) is None);
            assert forall|j: int, k: int| 0 <= j < k < n implies (#[trigger] rs[j]).player_record_index_1_based
                != (#[trigger] rs[k]).player_record_index_1_based && lower_text(trim_whitespace(rs[j].alias@))
                != lower_text(trim_whitespace(rs[k].alias@)) by {
                if k == n - 1 {
                    if rs[j].player_record_index_1_based == rs[k].player_record_index_1_based {
                        assert(false);
                    }
                    if lower_text(trim_whitespace(rs[j].alias@)) == lower_text(trim_whitespace(rs[k].alias@)) {
                        assert(false);
                    }
                }
            }
        }
        if reservations_valid(rs, n) {
            assert(reservations_valid(rs, n - 1));
            let r = rs[n - 1];
            assert(!(exists|j: int|
                0 <= j < n - 1 && #[trigger] rs[j].player_record_index_1_based == r.player_record_index_1_based));
            assert(!(exists|j: int|
                0 <= j < n - 1 && lower_text(trim_whitespace(#[trigger] rs[j].alias@)) == lower_text(
                    trim_whitespace(r.alias@),
                )));
        }
    }
}

/// Settings are accepted exactly when slug, game name and theme key are not
/// blank, idle and minimum session times are at most 120 minutes, the purge
/// and autopilot delays at most 100 turns, the maintenance interval at least
/// a minute, and the seat reservations valid.
pub proof fn lemma_settings_accepted(s: CampaignSettings)
    ensures
        settings_problem(s) is None <==> {
            &&& !is_blank_text(s.slug@)
            &&& !is_blank_text(s.game_name@)
            &&& !is_blank_text(s.default_theme_key@)
            &&& s.session_max_idle_minutes <= 120
            &&& s.session_minimum_time_minutes <= 120
            &&& s.inactivity_purge_after_turns <= 100
            &&& s.inactivity_autopilot_after_turns <= 100
            &&& s.maintenance_interval_minutes >= 1
            &&& reservations_valid(s.reservations@, s.reservations@.len() as int)
        },
{
    lemma_reservations_problem_none(s.reservations@, s.reservations@.len() as int);
}

} // verus!
