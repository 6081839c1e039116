//! Profile rules: names, descriptions, save/backup directory resolution and the backup
//! schedule and retention limits a profile may hold.
use crate::metadata::{normalize_optional_string, normalized_optional, opt_view, AppClock, PortFailure};
use crate::tasks::random_task_token;
use crate::text::{chars_of, trim, trim_spec};
use vstd::prelude::*;

verus! {

/// Directories the "open folder" entry may open. An enum rather than a path: callers can only
/// pick one of these two.
#[derive(Debug, Clone, Copy, PartialEq, Eq, Structural)]
pub enum ProfileDirectoryKind {
    Save,
    Backup,
}

pub struct CreateProfileRequest {
    pub name: String,
    pub description: Option<String>,
}

pub struct UpdateProfileRequest {
    pub profile_id: String,
    pub name: Option<String>,
    pub description: Option<Option<String>>,
}

/// Identity of the profile every installation starts with.
pub const DEFAULT_PROFILE_ID: &'static str = "default";

#[derive(Debug, Clone, Copy, PartialEq, Eq, Structural)]
pub enum ProfileRuleError {
    NameEmpty,
    DefaultProfileCannotBeDeleted,
    ActiveProfileCannotBeDeleted,
    DirectoryNotConfigured,
    SaveDirectoryHasNoManagedDefault,
    BackupHourRequired,
    BackupMinuteRequired,
    BackupHourOutOfRange,
    BackupMinuteOutOfRange,
    WeeklyBackupDaysRequired,
    WeeklyBackupDayOutOfRange,
    RetentionMaxCountOutOfRange,
    RetentionMaxAgeOutOfRange,
    RetentionMaxTotalBytesOutOfRange,
}

pub open spec fn profile_rule_message(error: ProfileRuleError) -> Seq<char> {
    match error {
        ProfileRuleError::NameEmpty => "profile name must not be empty"@,
        ProfileRuleError::DefaultProfileCannotBeDeleted => "default profile cannot be deleted"@,
        ProfileRuleError::ActiveProfileCannotBeDeleted => "active profile cannot be deleted"@,
        ProfileRuleError::DirectoryNotConfigured => "profile directory is not configured"@,
        ProfileRuleError::SaveDirectoryHasNoManagedDefault =>
            "save directory has no managed default location"@,
        ProfileRuleError::BackupHourRequired => "backup hour is required"@,
        ProfileRuleError::BackupMinuteRequired => "backup minute is required"@,
        ProfileRuleError::BackupHourOutOfRange => "backup hour must be between 0 and 23"@,
        ProfileRuleError::BackupMinuteOutOfRange => "backup minute must be between 0 and 59"@,
        ProfileRuleError::WeeklyBackupDaysRequired => "weekly backup days are required"@,
        ProfileRuleError::WeeklyBackupDayOutOfRange => "weekly backup day must be between 0 and 6"@,
        ProfileRuleError::RetentionMaxCountOutOfRange =>
            "backup retention max count must be between 0 and 999"@,
        ProfileRuleError::RetentionMaxAgeOutOfRange =>
            "backup retention max age days must be between 1 and 3650"@,
        ProfileRuleError::RetentionMaxTotalBytesOutOfRange =>
            "backup retention max total bytes must be between 16 MiB and 1 TiB"@,
    }
}

impl ProfileRuleError {
    pub fn message(self) -> (r: &'static str)
        ensures
            r@ == profile_rule_message(self),
    {
        match self {
            ProfileRuleError::NameEmpty => "profile name must not be empty",
            ProfileRuleError::DefaultProfileCannotBeDeleted => "default profile cannot be deleted",
            ProfileRuleError::ActiveProfileCannotBeDeleted => "active profile cannot be deleted",
            ProfileRuleError::DirectoryNotConfigured => "profile directory is not configured",
            ProfileRuleError::SaveDirectoryHasNoManagedDefault =>
                "save directory has no managed default location",
            ProfileRuleError::BackupHourRequired => "backup hour is required",
            ProfileRuleError::BackupMinuteRequired => "backup minute is required",
            ProfileRuleError::BackupHourOutOfRange => "backup hour must be between 0 and 23",
            ProfileRuleError::BackupMinuteOutOfRange => "backup minute must be between 0 and 59",
            ProfileRuleError::WeeklyBackupDaysRequired => "weekly backup days are required",
            ProfileRuleError::WeeklyBackupDayOutOfRange =>
                "weekly backup day must be between 0 and 6",
            ProfileRuleError::RetentionMaxCountOutOfRange =>
                "backup retention max count must be between 0 and 999",
            ProfileRuleError::RetentionMaxAgeOutOfRange =>
                "backup retention max age days must be between 1 and 3650",
            ProfileRuleError::RetentionMaxTotalBytesOutOfRange =>
                "backup retention max total bytes must be between 16 MiB and 1 TiB",
        }
    }
}

/// A profile name as stored: trimmed, and refused when nothing is left.
pub open spec fn required_name_spec(value: Seq<char>) -> Result<Seq<char>, ProfileRuleError> {
    if trim_spec(value).len() == 0 {
        Err(ProfileRuleError::NameEmpty)
    } else {
        Ok(trim_spec(value))
    }
}

pub fn normalize_required_name(value: String) -> (r: Result<String, ProfileRuleError>)
    ensures
        r matches Ok(s) ==> required_name_spec(value@) == Ok::<_, ProfileRuleError>(s@),
        r matches Err(e) ==> required_name_spec(value@) == Err::<Seq<char>, _>(e),
{
    let t = trim(value.as_str());
    if t.as_str().is_empty() {
        Err(ProfileRuleError::NameEmpty)
    } else {
        Ok(t)
    }
}

/// Name and description a new profile is created with.
pub fn create_profile_fields(request: CreateProfileRequest) -> (r: Result<
    (String, Option<String>),
    ProfileRuleError,
>)
    ensures
        r matches Ok(fields) ==> required_name_spec(request.name@) == Ok::<_, ProfileRuleError>(
            fields.0@,
        ) && opt_view(fields.1) == normalized_optional(opt_view(request.description)),
        r matches Err(e) ==> required_name_spec(request.name@) == Err::<Seq<char>, _>(e),
{
    let CreateProfileRequest { name, description } = request;
    let name = match normalize_required_name(name) {
        Ok(n) => n,
        Err(e) => {
            return Err(e);
        },
    };
    Ok((name, normalize_optional_string(description)))
}

/// Which profiles may be deleted: never the default one, never the active one.
pub open spec fn deletion_refusal(profile_id: Seq<char>, is_active: bool) -> Option<ProfileRuleError> {
    if profile_id == DEFAULT_PROFILE_ID@ {
        Some(ProfileRuleError::DefaultProfileCannotBeDeleted)
    } else if is_active {
        Some(ProfileRuleError::ActiveProfileCannotBeDeleted)
    } else {
        None
    }
}

pub fn check_profile_deletion(profile_id: &str, is_active: bool) -> (r: Result<(), ProfileRuleError>)
    ensures
        deletion_refusal(profile_id@, is_active) matches Some(e) ==> r == Err::<(), _>(e),
        deletion_refusal(profile_id@, is_active) is None ==> r is Ok,
{
    if crate::text::str_equal(profile_id, DEFAULT_PROFILE_ID) {
        Err(ProfileRuleError::DefaultProfileCannotBeDeleted)
    } else if is_active {
        Err(ProfileRuleError::ActiveProfileCannotBeDeleted)
    } else {
        Ok(())
    }
}

#[derive(Debug, Clone, Copy, PartialEq, Eq, Structural)]
pub enum BackupCadence {
    Manual,
    Daily,
    Weekly,
}

#[derive(Debug, Clone, PartialEq, Eq)]
pub struct ProfileBackupSchedule {
    pub cadence: BackupCadence,
    pub hour: Option<u8>,
    pub minute: Option<u8>,
    pub weekdays: Vec<u8>,
}

#[derive(Debug, Clone, Copy, PartialEq, Eq, Structural)]
pub struct ProfileBackupRetention {
    pub max_count: u32,
    pub max_age_days: Option<u32>,
    pub max_total_bytes: Option<u64>,
}

pub open spec fn schedule_time_spec(hour: Option<u8>, minute: Option<u8>) -> Result<(), ProfileRuleError> {
    if hour is None {
        Err(ProfileRuleError::BackupHourRequired)
    } else if minute is None {
        Err(ProfileRuleError::BackupMinuteRequired)
    } else if hour->0 > 23 {
        Err(ProfileRuleError::BackupHourOutOfRange)
    } else if minute->0 > 59 {
        Err(ProfileRuleError::BackupMinuteOutOfRange)
    } else {
        Ok(())
    }
}

/// A schedule is valid when a timed cadence has an hour and minute in range and a weekly one
/// has at least one day, every day within 0..=6.
pub open spec fn schedule_spec(schedule: ProfileBackupSchedule) -> Result<(), ProfileRuleError> {
    match schedule.cadence {
        BackupCadence::Manual => Ok(()),
        BackupCadence::Daily => schedule_time_spec(schedule.hour, schedule.minute),
        BackupCadence::Weekly => if schedule_time_spec(schedule.hour, schedule.minute) is Err {
            schedule_time_spec(schedule.hour, schedule.minute)
        } else if schedule.weekdays@.len() == 0 {
            Err(ProfileRuleError::WeeklyBackupDaysRequired)
        } else if exists|k: int| 0 <= k < schedule.weekdays@.len() && #[trigger] schedule.weekdays@[k] > 6 {
            Err(ProfileRuleError::WeeklyBackupDayOutOfRange)
        } else {
            Ok(())
        },
    }
}

fn validate_schedule_time(hour: Option<u8>, minute: Option<u8>) -> (r: Result<(), ProfileRuleError>)
    ensures
        r == schedule_time_spec(hour, minute),
        r is Ok <==> (hour is Some && hour->0 <= 23 && minute is Some && minute->0 <= 59),
        (hour is Some && hour->0 <= 23 && minute is Some && minute->0 > 59) ==> r == Err::<(), _>(
            ProfileRuleError::BackupMinuteOutOfRange,
        ),
{
    let h = match hour {
        Some(h) => h,
        None => {
            return Err(ProfileRuleError::BackupHourRequired);
        },
    };
    let m = match minute {
        Some(m) => m,
        None => {
            return Err(ProfileRuleError::BackupMinuteRequired);
        },
    };
    if h > 23 {
        return Err(ProfileRuleError::BackupHourOutOfRange);
    }
    if m > 59 {
        return Err(ProfileRuleError::BackupMinuteOutOfRange);
    }
    Ok(())
}

/// A timed schedule (daily or weekly) runs at an hour of the day and a minute of the hour.
pub open spec fn is_time_of_day(hour: Option<u8>, minute: Option<u8>) -> bool {
    hour is Some && hour->0 <= 23 && minute is Some && minute->0 <= 59
}

pub fn validate_schedule(schedule: &ProfileBackupSchedule) -> (r: Result<(), ProfileRuleError>)
    ensures
        r == schedule_spec(*schedule),
        schedule.cadence == BackupCadence::Manual ==> r is Ok,
        schedule.cadence == BackupCadence::Daily ==> (r is Ok <==> is_time_of_day(schedule.hour, schedule.minute)),
        schedule.cadence != BackupCadence::Manual && r is Ok ==> is_time_of_day(schedule.hour, schedule.minute),
        schedule.cadence != BackupCadence::Manual && schedule.hour is Some && schedule.hour->0 <= 23
            && schedule.minute is Some && schedule.minute->0 > 59 ==> r == Err::<(), _>(
            ProfileRuleError::BackupMinuteOutOfRange,
        ),
        schedule.cadence != BackupCadence::Manual && schedule.hour is Some && schedule.hour->0 > 23
            && schedule.minute is Some ==> r == Err::<(), _>(ProfileRuleError::BackupHourOutOfRange),
        schedule.cadence == BackupCadence::Weekly ==> (r is Ok <==> (is_time_of_day(schedule.hour, schedule.minute)
            && schedule.weekdays@.len() > 0 && forall|k: int|
            0 <= k < schedule.weekdays@.len() ==> #[trigger] schedule.weekdays@[k] <= 6)),
{
    match schedule.cadence {
        BackupCadence::Manual => Ok(()),
        BackupCadence::Daily => validate_schedule_time(schedule.hour, schedule.minute),
        BackupCadence::Weekly => {
            match validate_schedule_time(schedule.hour, schedule.minute) {
                Err(e) => {
                    return Err(e);
                },
                Ok(()) => {},
            }
            if schedule.weekdays.len() == 0 {
                return Err(ProfileRuleError::WeeklyBackupDaysRequired);
            }
            let mut k: usize = 0;
            while k < schedule.weekdays.len()
                invariant
                    schedule.cadence == BackupCadence::Weekly,
                    schedule_time_spec(schedule.hour, schedule.minute) is Ok,
                    schedule.weekdays@.len() > 0,
                    0 <= k <= schedule.weekdays@.len(),
                    forall|x: int| 0 <= x < k ==> #[trigger] schedule.weekdays@[x] <= 6,
                decreases schedule.weekdays@.len() - k,
            {
                if schedule.weekdays[k] > 6 {
                    proof {
                        assert(schedule.weekdays@[k as int] > 6);
                    }
                    return Err(ProfileRuleError::WeeklyBackupDayOutOfRange);
                }
                k = k + 1;
            }
            Ok(())
        },
    }
}

/// The backup time rules: a manual schedule needs no time; a daily or weekly one is accepted
/// only at an hour within 0..=23 and a minute within 0..=59 (a weekly one also needs at least one
/// day, each within 0..=6), and a minute past 59 at a valid hour is refused as out of range, as
/// an hour past 23 is.
pub proof fn lemma_schedule_time_rules(schedule: ProfileBackupSchedule)
    ensures
        schedule.cadence == BackupCadence::Manual ==> schedule_spec(schedule) is Ok,
        schedule.cadence != BackupCadence::Manual && schedule_spec(schedule) is Ok ==> (schedule.hour is Some && schedule.hour->0 <= 23 && schedule.minute is Some && schedule.minute->0 <= 59),
        schedule.cadence == BackupCadence::Daily && schedule.hour is Some && schedule.hour->0 <= 23
            && schedule.minute is Some && schedule.minute->0 <= 59 ==> schedule_spec(schedule) is Ok,
        schedule.cadence != BackupCadence::Manual && schedule.hour is Some && schedule.hour->0 <= 23
            && schedule.minute is Some && schedule.minute->0 > 59 ==> schedule_spec(schedule) == Err::<(), _>(
            ProfileRuleError::BackupMinuteOutOfRange,
        ),
        schedule.cadence != BackupCadence::Manual && schedule.hour is Some && schedule.hour->0 > 23
            && schedule.minute is Some ==> schedule_spec(schedule) == Err::<(), _>(
            ProfileRuleError::BackupHourOutOfRange,
        ),
        schedule.cadence == BackupCadence::Weekly ==> (schedule_spec(schedule) is Ok <==> (schedule.hour is Some
            && schedule.hour->0 <= 23 && schedule.minute is Some && schedule.minute->0 <= 59
            && schedule.weekdays@.len() > 0 && forall|k: int|
            0 <= k < schedule.weekdays@.len() ==> #[trigger] schedule.weekdays@[k] <= 6)),
        schedule.cadence == BackupCadence::Weekly && schedule.hour is Some && schedule.hour->0 <= 23
            && schedule.minute is Some && schedule.minute->0 <= 59 && schedule.weekdays@.len() == 0
            ==> schedule_spec(schedule) == Err::<(), _>(ProfileRuleError::WeeklyBackupDaysRequired),
{
}

pub const MIN_RETENTION_TOTAL_BYTES: u64 = 16 * 1024 * 1024;

pub const MAX_RETENTION_TOTAL_BYTES: u64 = 1024 * 1024 * 1024 * 1024;

/// Retention limits: at most 999 backups, an age limit of 1 to 3650 days, a size limit of
/// 16 MiB to 1 TiB.
pub open spec fn retention_spec(retention: ProfileBackupRetention) -> Result<(), ProfileRuleError> {
    if retention.max_count > 999 {
        Err(ProfileRuleError::RetentionMaxCountOutOfRange)
    } else if retention.max_age_days matches Some(d) && (d < 1 || d > 3650) {
        Err(ProfileRuleError::RetentionMaxAgeOutOfRange)
    } else if retention.max_total_bytes matches Some(b) && (b < MIN_RETENTION_TOTAL_BYTES || b
        > MAX_RETENTION_TOTAL_BYTES) {
        Err(ProfileRuleError::RetentionMaxTotalBytesOutOfRange)
    } else {
        Ok(())
    }
}

pub fn validate_retention(retention: &ProfileBackupRetention) -> (r: Result<(), ProfileRuleError>)
    ensures
        r == retention_spec(*retention),
        r is Ok <==> (retention.max_count <= 999 && (retention.max_age_days is Some ==> 1
            <= retention.max_age_days->0 <= 3650) && (retention.max_total_bytes is Some
            ==> MIN_RETENTION_TOTAL_BYTES <= retention.max_total_bytes->0 <= MAX_RETENTION_TOTAL_BYTES)),
        retention.max_count > 999 ==> r == Err::<(), _>(ProfileRuleError::RetentionMaxCountOutOfRange),
{
    if retention.max_count > 999 {
        return Err(ProfileRuleError::RetentionMaxCountOutOfRange);
    }
    match retention.max_age_days {
        Some(d) => {
            if d < 1 || d > 3650 {
                return Err(ProfileRuleError::RetentionMaxAgeOutOfRange);
            }
        },
        None => {},
    }
    match retention.max_total_bytes {
        Some(b) => {
            if b < MIN_RETENTION_TOTAL_BYTES || b > MAX_RETENTION_TOTAL_BYTES {
                return Err(ProfileRuleError::RetentionMaxTotalBytesOutOfRange);
            }
        },
        None => {},
    }
    Ok(())
}

/// The retention rules: limits are accepted exactly when at most 999 backups are kept, an age
/// limit (if any) lies within 1..=3650 days and a size limit (if any) within 16 MiB..=1 TiB; a
/// count above 999 is refused as such whatever the other limits, an age limit out of range is
/// refused as such when the count is in range, and a size limit out of range is refused as such
/// when the other two are in range.
pub proof fn lemma_retention_rules(retention: ProfileBackupRetention)
    ensures
        retention_spec(retention) is Ok <==> (retention.max_count <= 999 && (retention.max_age_days is Some
            ==> 1 <= retention.max_age_days->0 <= 3650) && (retention.max_total_bytes is Some
            ==> MIN_RETENTION_TOTAL_BYTES <= retention.max_total_bytes->0 <= MAX_RETENTION_TOTAL_BYTES)),
        retention.max_count > 999 ==> retention_spec(retention) == Err::<(), _>(
            ProfileRuleError::RetentionMaxCountOutOfRange,
        ),
        retention.max_count <= 999 && retention.max_age_days is Some && (retention.max_age_days->0 < 1
            || retention.max_age_days->0 > 3650) ==> retention_spec(retention) == Err::<(), _>(
            ProfileRuleError::RetentionMaxAgeOutOfRange,
        ),
        retention.max_count <= 999 && (retention.max_age_days is Some ==> 1 <= retention.max_age_days->0
            <= 3650) && retention.max_total_bytes is Some && (retention.max_total_bytes->0
            < MIN_RETENTION_TOTAL_BYTES || retention.max_total_bytes->0 > MAX_RETENTION_TOTAL_BYTES)
            ==> retention_spec(retention) == Err::<(), _>(ProfileRuleError::RetentionMaxTotalBytesOutOfRange),
{
}

/// How a profile directory was chosen.
#[derive(Debug, Clone, Copy, PartialEq, Eq, Structural)]
pub enum ProfileDirectoryMode {
    /// A directory the player picked.
    Custom,
    /// The application's managed default location.
    Default,
    /// Nothing configured yet.
    Unset,
}

/// Where "open folder" should go for a profile directory.
#[derive(Debug, Clone, PartialEq, Eq)]
pub enum ProfileDirectoryTarget {
    /// The player's own directory, opened as it is.
    Custom(String),
    /// The managed default backup directory, created on demand by the caller.
    ManagedBackupDefault,
}

/// Resolves the directory to open by its mode: a custom directory must be recorded, only the
/// backup directory has a managed default, and an unset directory is an error.
pub open spec fn directory_target_spec(
    kind: ProfileDirectoryKind,
    mode: ProfileDirectoryMode,
    directory: Option<Seq<char>>,
) -> Result<Option<Seq<char>>, ProfileRuleError> {
    match mode {
        ProfileDirectoryMode::Custom => match directory {
            Some(d) => Ok(Some(d)),
            None => Err(ProfileRuleError::DirectoryNotConfigured),
        },
        ProfileDirectoryMode::Default => match kind {
            ProfileDirectoryKind::Backup => Ok(None),
            ProfileDirectoryKind::Save => Err(ProfileRuleError::SaveDirectoryHasNoManagedDefault),
        },
        ProfileDirectoryMode::Unset => Err(ProfileRuleError::DirectoryNotConfigured),
    }
}

pub fn resolve_profile_directory(
    kind: ProfileDirectoryKind,
    mode: ProfileDirectoryMode,
    directory: &Option<String>,
) -> (r: Result<ProfileDirectoryTarget, ProfileRuleError>)
    ensures
        directory_target_spec(kind, mode, opt_view(*directory)) matches Ok(Some(d)) ==> (r matches Ok(
            ProfileDirectoryTarget::Custom(s),
        ) && s@ == d),
        directory_target_spec(kind, mode, opt_view(*directory)) matches Ok(None) ==> r == Ok::<
            _,
            ProfileRuleError,
        >(ProfileDirectoryTarget::ManagedBackupDefault),
        directory_target_spec(kind, mode, opt_view(*directory)) matches Err(e) ==> r == Err::<
            ProfileDirectoryTarget,
            _,
        >(e),
{
    match mode {
        ProfileDirectoryMode::Custom => match directory {
            Some(d) => Ok(ProfileDirectoryTarget::Custom(d.clone())),
            None => Err(ProfileRuleError::DirectoryNotConfigured),
        },
        ProfileDirectoryMode::Default => match kind {
            ProfileDirectoryKind::Backup => Ok(ProfileDirectoryTarget::ManagedBackupDefault),
            ProfileDirectoryKind::Save => Err(ProfileRuleError::SaveDirectoryHasNoManagedDefault),
        },
        ProfileDirectoryMode::Unset => Err(ProfileRuleError::DirectoryNotConfigured),
    }
}

/// A path character as Windows compares paths: `\` is `/`, ASCII letters ignore case.
pub open spec fn windows_path_char(c: char) -> char {
    if c == '\\' {
        '/'
    } else if 'A' <= c && c <= 'Z' {
        ((c as u32) + 32) as char
    } else {
        c
    }
}

/// Whether two recorded directories name the same place. Windows paths compare with either
/// separator and ASCII case ignored; other platforms compare exactly. Two absent directories
/// are the same, one absent and one present are not.
pub open spec fn directories_equivalent_spec(
    left: Option<Seq<char>>,
    right: Option<Seq<char>>,
    windows: bool,
) -> bool {
    match (left, right) {
        (None, None) => true,
        (Some(l), Some(r)) => if windows {
            l.len() == r.len() && forall|k: int| 0 <= k < l.len() ==> windows_path_char(#[trigger] l[k])
                == windows_path_char(r[k])
        } else {
            l == r
        },
        _ => false,
    }
}

pub(crate) fn windows_char(c: char) -> (r: char)
    ensures
        r == windows_path_char(c),
{
    if c == '\\' {
        '/'
    } else if 'A' <= c && c <= 'Z' {
        let u = (c as u32) + 32;
        proof {
            assert(u < 0xD800);
        }
        char_from_ascii(u)
    } else {
        c
    }
}

/// The character of an ASCII code point.
pub(crate) fn char_from_ascii(u: u32) -> (r: char)
    requires
        u < 0x80,
    ensures
        r == u as char,
{
    let b: u8 = u as u8;
    b as char
}

pub fn directories_equivalent(left: Option<&str>, right: Option<&str>, windows: bool) -> (r: bool)
    ensures
        r == directories_equivalent_spec(
            match left {
                Some(l) => Some(l@),
                None => None,
            },
            match right {
                Some(x) => Some(x@),
                None => None,
            },
            windows,
        ),
{
    match (left, right) {
        (None, None) => true,
        (Some(l), Some(r)) => {
            let a = chars_of(l);
            let b = chars_of(r);
            if !windows {
                return crate::text::str_equal(l, r);
            }
            if a.len() != b.len() {
                return false;
            }
            let mut k: usize = 0;
            while k < a.len()
                invariant
                    windows,
                    left == Some(l),
                    right == Some(r),
                    a@ == l@,
                    b@ == r@,
                    a@.len() == b@.len(),
                    0 <= k <= a@.len(),
                    forall|x: int| 0 <= x < k ==> windows_path_char(#[trigger] a@[x])
                        == windows_path_char(b@[x]),
                decreases a@.len() - k,
            {
                if windows_char(a[k]) != windows_char(b[k]) {
                    proof {
                        assert(windows_path_char(a@[k as int]) != windows_path_char(b@[k as int]));
                    }
                    return false;
                }
                k = k + 1;
            }
            true
        },
        _ => false,
    }
}


/// A profile as the repository stores it.
#[derive(Debug, Clone, PartialEq, Eq)]
pub struct Profile {
    pub id: String,
    pub name: String,
    pub description: Option<String>,
    pub is_active: bool,
    pub created_at: u128,
    pub updated_at: u128,
}

/// How a directory check judged a profile directory.
#[derive(Debug, Clone, Copy, PartialEq, Eq, Structural)]
pub enum ProfileDirectoryStatus {
    Unset,
    Ready,
    Unavailable,
}

/// A save or backup directory of a profile, with what the checks reported of it.
#[derive(Debug, Clone, PartialEq, Eq)]
pub struct ProfileDirectorySelection {
    pub mode: ProfileDirectoryMode,
    pub status: ProfileDirectoryStatus,
    pub directory: Option<String>,
    pub path_label: Option<String>,
    pub messages: Vec<String>,
}

/// Save and backup settings of one profile.
#[derive(Debug, Clone, PartialEq, Eq)]
pub struct ProfileSaveSettings {
    pub profile_id: String,
    pub save_directory: ProfileDirectorySelection,
    pub backup_directory: ProfileDirectorySelection,
    pub schedule: ProfileBackupSchedule,
    pub retention: ProfileBackupRetention,
    pub steam_account: Option<String>,
    pub pre_restore_backup_enabled: bool,
    pub updated_at: u128,
}

pub struct SetProfileSaveSettingsRequest {
    pub profile_id: String,
    pub game_id: String,
    pub save_directory: Option<String>,
    pub backup_directory: Option<String>,
    pub schedule: ProfileBackupSchedule,
    pub retention: ProfileBackupRetention,
    pub pre_restore_backup_enabled: bool,
}

/// Why a profile operation did not complete.
#[derive(Debug, Clone, PartialEq, Eq)]
pub enum ProfileServiceError {
    /// The request broke one of the profile rules.
    Rule(ProfileRuleError),
    /// No profile has this id.
    ProfileNotFound(String),
    /// No profile is marked active.
    ActiveProfileNotFound,
    /// A repository, validator, clock or opener failed.
    Unavailable,
}

/// Message shown when no save directory was picked yet.
pub const UNSET_SAVE_DIRECTORY_MESSAGE: &'static str = "尚未选择游戏存档目录";

/// The save directory of a profile that has none yet.
pub open spec fn is_unset_save_directory(selection: ProfileDirectorySelection) -> bool {
    &&& selection.mode == ProfileDirectoryMode::Unset
    &&& selection.status == ProfileDirectoryStatus::Unset
    &&& selection.directory is None
    &&& selection.path_label is None
    &&& selection.messages@.len() == 1
    &&& selection.messages@[0]@ == UNSET_SAVE_DIRECTORY_MESSAGE@
}

pub fn unset_save_directory() -> (r: ProfileDirectorySelection)
    ensures
        is_unset_save_directory(r),
{
    let mut messages: Vec<String> = Vec::new();
    messages.push(UNSET_SAVE_DIRECTORY_MESSAGE.to_owned());
    ProfileDirectorySelection {
        mode: ProfileDirectoryMode::Unset,
        status: ProfileDirectoryStatus::Unset,
        directory: None,
        path_label: None,
        messages,
    }
}

/// The schedule of a profile that never chose one: backups only on request.
pub open spec fn is_manual_schedule(schedule: ProfileBackupSchedule) -> bool {
    &&& schedule.cadence == BackupCadence::Manual
    &&& schedule.hour is None
    &&& schedule.minute is None
    &&& schedule.weekdays@.len() == 0
}

pub fn manual_schedule() -> (r: ProfileBackupSchedule)
    ensures
        is_manual_schedule(r),
{
    ProfileBackupSchedule { cadence: BackupCadence::Manual, hour: None, minute: None, weekdays: Vec::new() }
}

/// Retention of a profile that never chose one: no limit of any kind.
pub open spec fn unlimited_retention() -> ProfileBackupRetention {
    ProfileBackupRetention { max_count: 0, max_age_days: None, max_total_bytes: None }
}

/// Settings reported for a profile with nothing stored: no save directory, the validator's
/// default backup directory, manual backups, no retention limit, a backup before each restore.
pub open spec fn is_default_save_settings(
    settings: ProfileSaveSettings,
    profile_id: Seq<char>,
    backup_directory: ProfileDirectorySelection,
) -> bool {
    &&& settings.profile_id@ == profile_id
    &&& is_unset_save_directory(settings.save_directory)
    &&& settings.backup_directory == backup_directory
    &&& is_manual_schedule(settings.schedule)
    &&& settings.retention == unlimited_retention()
    &&& settings.steam_account is None
    &&& settings.pre_restore_backup_enabled
    &&& settings.updated_at == 0
}

pub fn default_save_settings(profile_id: &str, backup_directory: ProfileDirectorySelection) -> (r:
    ProfileSaveSettings)
    ensures
        is_default_save_settings(r, profile_id@, backup_directory),
{
    ProfileSaveSettings {
        profile_id: profile_id.to_owned(),
        save_directory: unset_save_directory(),
        backup_directory,
        schedule: manual_schedule(),
        retention: ProfileBackupRetention { max_count: 0, max_age_days: None, max_total_bytes: None },
        steam_account: None,
        pre_restore_backup_enabled: true,
        updated_at: 0,
    }
}

/// Name and description after an update: a given name must survive trimming, an absent field
/// keeps the stored value, a given description is normalized (blank clears it).
pub open spec fn updated_fields_spec(
    existing_name: Seq<char>,
    existing_description: Option<Seq<char>>,
    name: Option<Seq<char>>,
    description: Option<Option<Seq<char>>>,
) -> Result<(Seq<char>, Option<Seq<char>>), ProfileRuleError> {
    let new_description = match description {
        Some(d) => normalized_optional(d),
        None => existing_description,
    };
    match name {
        Some(n) => match required_name_spec(n) {
            Ok(t) => Ok((t, new_description)),
            Err(e) => Err(e),
        },
        None => Ok((existing_name, new_description)),
    }
}

pub open spec fn opt_opt_view(value: Option<Option<String>>) -> Option<Option<Seq<char>>> {
    match value {
        Some(d) => Some(opt_view(d)),
        None => None,
    }
}

pub fn updated_profile_fields(
    existing: &Profile,
    name: Option<String>,
    description: Option<Option<String>>,
) -> (r: Result<(String, Option<String>), ProfileRuleError>)
    ensures
        updated_fields_spec(existing.name@, opt_view(existing.description), opt_view(name), opt_opt_view(description))
            matches Ok(f) ==> (r matches Ok(g) && g.0@ == f.0 && opt_view(g.1) == f.1),
        updated_fields_spec(existing.name@, opt_view(existing.description), opt_view(name), opt_opt_view(description))
            matches Err(e) ==> r == Err::<(String, Option<String>), _>(e),
{
    let new_name = match name {
        Some(n) => match normalize_required_name(n) {
            Ok(t) => t,
            Err(e) => {
                return Err(e);
            },
        },
        None => existing.name.clone(),
    };
    let new_description = match description {
        Some(d) => normalize_optional_string(d),
        None => existing.description.clone(),
    };
    Ok((new_name, new_description))
}

/// The steam account survives a settings change only while the save directory stays the same
/// place.
pub open spec fn kept_steam_account(
    existing: Option<ProfileSaveSettings>,
    save_directory: Option<Seq<char>>,
    windows: bool,
) -> Option<Seq<char>> {
    match existing {
        Some(s) => if directories_equivalent_spec(opt_view(s.save_directory.directory), save_directory, windows) {
            opt_view(s.steam_account)
        } else {
            None
        },
        None => None,
    }
}

/// The settings stored by a change: the request's schedule, retention and restore switch,
/// the resolved directories, the kept steam account and the time of the change.
pub open spec fn is_changed_save_settings(
    settings: ProfileSaveSettings,
    profile_id: Seq<char>,
    save_directory: ProfileDirectorySelection,
    backup_directory: ProfileDirectorySelection,
    schedule: ProfileBackupSchedule,
    retention: ProfileBackupRetention,
    pre_restore_backup_enabled: bool,
    existing: Option<ProfileSaveSettings>,
    now: u128,
    windows: bool,
) -> bool {
    &&& settings.profile_id@ == profile_id
    &&& settings.save_directory == save_directory
    &&& settings.backup_directory == backup_directory
    &&& settings.schedule == schedule
    &&& settings.retention == retention
    &&& opt_view(settings.steam_account) == kept_steam_account(existing, opt_view(save_directory.directory), windows)
    &&& settings.pre_restore_backup_enabled == pre_restore_backup_enabled
    &&& settings.updated_at == now
}

pub fn changed_save_settings(
    profile_id: String,
    save_directory: ProfileDirectorySelection,
    backup_directory: ProfileDirectorySelection,
    schedule: ProfileBackupSchedule,
    retention: ProfileBackupRetention,
    pre_restore_backup_enabled: bool,
    existing: &Option<ProfileSaveSettings>,
    now: u128,
    windows: bool,
) -> (r: ProfileSaveSettings)
    ensures
        is_changed_save_settings(r, profile_id@, save_directory, backup_directory, schedule, retention,
            pre_restore_backup_enabled, *existing, now, windows),
{
    let steam_account = match existing {
        Some(s) => {
            let same = directories_equivalent(
                match &s.save_directory.directory {
                    Some(d) => Some(d.as_str()),
                    None => None,
                },
                match &save_directory.directory {
                    Some(d) => Some(d.as_str()),
                    None => None,
                },
                windows,
            );
            if same {
                s.steam_account.clone()
            } else {
                None
            }
        },
        None => None,
    };
    ProfileSaveSettings {
        profile_id,
        save_directory,
        backup_directory,
        schedule,
        retention,
        steam_account,
        pre_restore_backup_enabled,
        updated_at: now,
    }
}

/// Where profiles are stored.
pub trait ProfileRepository {
    fn get(&self, profile_id: &str) -> Result<Option<Profile>, PortFailure>;

    fn save(&self, profile: &Profile) -> Result<(), PortFailure>;

    fn delete(&self, profile_id: &str) -> Result<(), PortFailure>;

    fn list_all(&self) -> Result<Vec<Profile>, PortFailure>;

    fn get_active(&self) -> Result<Option<Profile>, PortFailure>;

    fn set_active(&self, profile_id: &str, now: u128) -> Result<(), PortFailure>;
}

/// Where save settings are stored.
pub trait ProfileSaveSettingsRepository {
    fn get_settings(&self, profile_id: &str) -> Result<Option<ProfileSaveSettings>, PortFailure>;

    fn save_settings(&self, settings: &ProfileSaveSettings) -> Result<(), PortFailure>;
}

/// Checks a directory a player picked, and knows the default backup directory of a game.
pub trait ProfileSaveDirectoryValidator {
    fn validate_save_directory(&self, game_id: &str, directory: &str) -> Result<
        ProfileDirectorySelection,
        PortFailure,
    >;

    fn validate_backup_directory(&self, game_id: &str, directory: &str) -> Result<
        ProfileDirectorySelection,
        PortFailure,
    >;

    fn default_backup_directory(&self, game_id: &str) -> Result<ProfileDirectorySelection, PortFailure>;
}

/// Lays out the managed backup directory of a profile, creating it when missing.
pub trait SaveBackupDirectoryLocator {
    fn backup_directory_for_profile(
        &self,
        selection: &ProfileDirectorySelection,
        game_id: &str,
        profile_id: &str,
    ) -> Result<String, PortFailure>;
}

/// Opens a directory in the system file manager.
pub trait SystemDirectoryOpener {
    fn open_directory(&self, directory: &str) -> Result<(), PortFailure>;
}

pub struct ProfileService<
    R: ProfileRepository,
    S: ProfileSaveSettingsRepository,
    V: ProfileSaveDirectoryValidator,
    L: SaveBackupDirectoryLocator,
    O: SystemDirectoryOpener,
    C: AppClock,
> {
    profile_repository: R,
    save_settings_repository: S,
    save_directory_validator: V,
    backup_directory_locator: L,
    directory_opener: O,
    clock: C,
    windows_paths: bool,
}

impl<
    R: ProfileRepository,
    S: ProfileSaveSettingsRepository,
    V: ProfileSaveDirectoryValidator,
    L: SaveBackupDirectoryLocator,
    O: SystemDirectoryOpener,
    C: AppClock,
> ProfileService<R, S, V, L, O, C> {
    /// `windows_paths` says whether recorded directories compare as Windows paths.
    pub fn new(
        profile_repository: R,
        save_settings_repository: S,
        save_directory_validator: V,
        backup_directory_locator: L,
        directory_opener: O,
        clock: C,
        windows_paths: bool,
    ) -> (r: Self)
        ensures
            r.windows_paths_spec() == windows_paths,
    {
        ProfileService {
            profile_repository,
            save_settings_repository,
            save_directory_validator,
            backup_directory_locator,
            directory_opener,
            clock,
            windows_paths,
        }
    }

    pub closed spec fn windows_paths_spec(&self) -> bool {
        self.windows_paths
    }

    fn now(&self) -> (r: Result<u128, ProfileServiceError>)
        ensures
            r matches Err(e) ==> e == ProfileServiceError::Unavailable,
    {
        match self.clock.now_unix_millis() {
            Ok(n) => Ok(n),
            Err(_) => Err(ProfileServiceError::Unavailable),
        }
    }

    fn existing_profile(&self, profile_id: &str) -> (r: Result<Profile, ProfileServiceError>)
        ensures
            r matches Err(e) ==> (e == ProfileServiceError::Unavailable || (e matches
                ProfileServiceError::ProfileNotFound(id) && id@ == profile_id@)),
    {
        match self.profile_repository.get(profile_id) {
            Ok(Some(p)) => Ok(p),
            Ok(None) => Err(ProfileServiceError::ProfileNotFound(profile_id.to_owned())),
            Err(_) => Err(ProfileServiceError::Unavailable),
        }
    }

    /// Creates an inactive profile under a fresh random id and returns the id. The name is
    /// checked before anything else is asked.
    pub fn create_profile(&self, request: CreateProfileRequest) -> (r: Result<String, ProfileServiceError>)
        ensures
            required_name_spec(request.name@) matches Err(e) ==> r == Err::<String, _>(
                ProfileServiceError::Rule(e),
            ),
            required_name_spec(request.name@) is Ok ==> (r is Ok || r == Err::<String, _>(
                ProfileServiceError::Unavailable,
            )),
    {
        let (name, description) = match create_profile_fields(request) {
            Ok(f) => f,
            Err(e) => {
                return Err(ProfileServiceError::Rule(e));
            },
        };
        let now = match self.now() {
            Ok(n) => n,
            Err(e) => {
                return Err(e);
            },
        };
        let id = match random_task_token() {
            Some(t) => t,
            None => {
                return Err(ProfileServiceError::Unavailable);
            },
        };
        let profile = Profile {
            id: id.clone(),
            name,
            description,
            is_active: false,
            created_at: now,
            updated_at: now,
        };
        match self.profile_repository.save(&profile) {
            Ok(()) => Ok(id),
            Err(_) => Err(ProfileServiceError::Unavailable),
        }
    }

    /// Renames or redescribes a stored profile; what the request leaves out keeps its value.
    pub fn update_profile(&self, request: UpdateProfileRequest) -> (r: Result<(), ProfileServiceError>)
        ensures
            r matches Err(ProfileServiceError::Rule(e)) ==> (request.name matches Some(n)
                && required_name_spec(n@) == Err::<Seq<char>, _>(e)),
            r matches Err(ProfileServiceError::ProfileNotFound(id)) ==> id@ == request.profile_id@,
            r != Err::<(), _>(ProfileServiceError::ActiveProfileNotFound),
            (request.name matches Some(n) && required_name_spec(n@) is Err) ==> r is Err,
    {
        let UpdateProfileRequest { profile_id, name, description } = request;
        let existing = match self.existing_profile(profile_id.as_str()) {
            Ok(p) => p,
            Err(e) => {
                return Err(e);
            },
        };
        let (new_name, new_description) = match updated_profile_fields(&existing, name, description) {
            Ok(f) => f,
            Err(e) => {
                return Err(ProfileServiceError::Rule(e));
            },
        };
        let now = match self.now() {
            Ok(n) => n,
            Err(e) => {
                return Err(e);
            },
        };
        let profile = Profile {
            id: existing.id,
            name: new_name,
            description: new_description,
            is_active: existing.is_active,
            created_at: existing.created_at,
            updated_at: now,
        };
        match self.profile_repository.save(&profile) {
            Ok(()) => Ok(()),
            Err(_) => Err(ProfileServiceError::Unavailable),
        }
    }

    /// Deletes a profile; the default profile and the active one are never deleted.
    pub fn delete_profile(&self, profile_id: &str) -> (r: Result<(), ProfileServiceError>)
        ensures
            profile_id@ == DEFAULT_PROFILE_ID@ ==> r == Err::<(), _>(ProfileServiceError::Rule(
                ProfileRuleError::DefaultProfileCannotBeDeleted,
            )),
            r matches Err(ProfileServiceError::Rule(e)) ==> (e
                == ProfileRuleError::DefaultProfileCannotBeDeleted || e
                == ProfileRuleError::ActiveProfileCannotBeDeleted),
            r matches Err(ProfileServiceError::ProfileNotFound(id)) ==> id@ == profile_id@,
            r != Err::<(), _>(ProfileServiceError::ActiveProfileNotFound),
    {
        match check_profile_deletion(profile_id, false) {
            Err(e) => {
                return Err(ProfileServiceError::Rule(e));
            },
            Ok(()) => {},
        }
        let existing = match self.existing_profile(profile_id) {
            Ok(p) => p,
            Err(e) => {
                return Err(e);
            },
        };
        match check_profile_deletion(profile_id, existing.is_active) {
            Err(e) => {
                return Err(ProfileServiceError::Rule(e));
            },
            Ok(()) => {},
        }
        match self.profile_repository.delete(profile_id) {
            Ok(()) => Ok(()),
            Err(_) => Err(ProfileServiceError::Unavailable),
        }
    }

    pub fn list_profiles(&self) -> (r: Result<Vec<Profile>, ProfileServiceError>)
        ensures
            r matches Err(e) ==> e == ProfileServiceError::Unavailable,
    {
        match self.profile_repository.list_all() {
            Ok(v) => Ok(v),
            Err(_) => Err(ProfileServiceError::Unavailable),
        }
    }

    pub fn get_active_profile(&self) -> (r: Result<Profile, ProfileServiceError>)
        ensures
            r matches Err(e) ==> (e == ProfileServiceError::Unavailable || e
                == ProfileServiceError::ActiveProfileNotFound),
    {
        match self.profile_repository.get_active() {
            Ok(Some(p)) => Ok(p),
            Ok(None) => Err(ProfileServiceError::ActiveProfileNotFound),
            Err(_) => Err(ProfileServiceError::Unavailable),
        }
    }

    /// Marks a stored profile active at the clock's time.
    pub fn set_active_profile(&self, profile_id: &str) -> (r: Result<(), ProfileServiceError>)
        ensures
            r matches Err(e) ==> (e == ProfileServiceError::Unavailable || (e matches
                ProfileServiceError::ProfileNotFound(id) && id@ == profile_id@)),
    {
        match self.existing_profile(profile_id) {
            Ok(_) => {},
            Err(e) => {
                return Err(e);
            },
        }
        let now = match self.now() {
            Ok(n) => n,
            Err(e) => {
                return Err(e);
            },
        };
        match self.profile_repository.set_active(profile_id, now) {
            Ok(()) => Ok(()),
            Err(_) => Err(ProfileServiceError::Unavailable),
        }
    }

    /// The stored settings of a profile, or the defaults when none are stored.
    pub fn get_profile_save_settings(&self, game_id: &str, profile_id: &str) -> (r: Result<
        ProfileSaveSettings,
        ProfileServiceError,
    >)
        ensures
            r matches Err(e) ==> (e == ProfileServiceError::Unavailable || (e matches
                ProfileServiceError::ProfileNotFound(id) && id@ == profile_id@)),
    {
        match self.existing_profile(profile_id) {
            Ok(_) => {},
            Err(e) => {
                return Err(e);
            },
        }
        match self.save_settings_repository.get_settings(profile_id) {
            Err(_) => {
                return Err(ProfileServiceError::Unavailable);
            },
            Ok(Some(settings)) => {
                return Ok(settings);
            },
            Ok(None) => {},
        }
        match self.save_directory_validator.default_backup_directory(game_id) {
            Ok(backup) => Ok(default_save_settings(profile_id, backup)),
            Err(_) => Err(ProfileServiceError::Unavailable),
        }
    }

    /// Opens the configured save or backup directory of a profile. Only the managed default
    /// backup directory is laid out on demand; a custom directory is opened as it is, and an
    /// unconfigured one is an error rather than some default place.
    pub fn open_profile_directory(&self, game_id: &str, profile_id: &str, kind: ProfileDirectoryKind) -> (r:
        Result<(), ProfileServiceError>)
        ensures
            r matches Err(ProfileServiceError::Rule(e)) ==> (e == ProfileRuleError::DirectoryNotConfigured
                || (e == ProfileRuleError::SaveDirectoryHasNoManagedDefault && kind
                == ProfileDirectoryKind::Save)),
            r matches Err(ProfileServiceError::ProfileNotFound(id)) ==> id@ == profile_id@,
            r != Err::<(), _>(ProfileServiceError::ActiveProfileNotFound),
    {
        let settings = match self.get_profile_save_settings(game_id, profile_id) {
            Ok(s) => s,
            Err(e) => {
                return Err(e);
            },
        };
        let selection = match kind {
            ProfileDirectoryKind::Save => settings.save_directory,
            ProfileDirectoryKind::Backup => settings.backup_directory,
        };
        let target = match resolve_profile_directory(kind, selection.mode, &selection.directory) {
            Ok(t) => t,
            Err(e) => {
                return Err(ProfileServiceError::Rule(e));
            },
        };
        let directory = match target {
            ProfileDirectoryTarget::Custom(d) => d,
            ProfileDirectoryTarget::ManagedBackupDefault => {
                match self.backup_directory_locator.backup_directory_for_profile(&selection, game_id, profile_id) {
                    Ok(d) => d,
                    Err(_) => {
                        return Err(ProfileServiceError::Unavailable);
                    },
                }
            },
        };
        match self.directory_opener.open_directory(directory.as_str()) {
            Ok(()) => Ok(()),
            Err(_) => Err(ProfileServiceError::Unavailable),
        }
    }

    pub fn validate_profile_save_directory(&self, game_id: &str, directory: &str) -> (r: Result<
        ProfileDirectorySelection,
        ProfileServiceError,
    >)
        ensures
            r matches Err(e) ==> e == ProfileServiceError::Unavailable,
    {
        match self.save_directory_validator.validate_save_directory(game_id, directory) {
            Ok(s) => Ok(s),
            Err(_) => Err(ProfileServiceError::Unavailable),
        }
    }

    pub fn validate_profile_backup_directory(&self, game_id: &str, directory: &str) -> (r: Result<
        ProfileDirectorySelection,
        ProfileServiceError,
    >)
        ensures
            r matches Err(e) ==> e == ProfileServiceError::Unavailable,
    {
        match self.save_directory_validator.validate_backup_directory(game_id, directory) {
            Ok(s) => Ok(s),
            Err(_) => Err(ProfileServiceError::Unavailable),
        }
    }

    /// Stores new save settings. A directory the request gives is checked by the validator;
    /// one it leaves out keeps the stored value (a new profile gets no save directory and the
    /// default backup directory). The schedule and retention are checked before the clock is
    /// read, and the steam account is kept only while the save directory stays the same place.
    pub fn set_profile_save_settings(&self, request: SetProfileSaveSettingsRequest) -> (r: Result<
        ProfileSaveSettings,
        ProfileServiceError,
    >)
        ensures
            r matches Ok(s) ==> (s.profile_id@ == request.profile_id@ && s.schedule == request.schedule
                && s.retention == request.retention && s.pre_restore_backup_enabled
                == request.pre_restore_backup_enabled && schedule_spec(request.schedule) is Ok
                && retention_spec(request.retention) is Ok),
            r matches Err(ProfileServiceError::Rule(e)) ==> (schedule_spec(request.schedule) == Err::<
                (),
                _,
            >(e) || (schedule_spec(request.schedule) is Ok && retention_spec(request.retention)
                == Err::<(), _>(e))),
            r matches Err(ProfileServiceError::ProfileNotFound(id)) ==> id@ == request.profile_id@,
            r matches Err(e) ==> e != ProfileServiceError::ActiveProfileNotFound,
    {
        let SetProfileSaveSettingsRequest {
            profile_id,
            game_id,
            save_directory,
            backup_directory,
            schedule,
            retention,
            pre_restore_backup_enabled,
        } = request;
        match self.existing_profile(profile_id.as_str()) {
            Ok(_) => {},
            Err(e) => {
                return Err(e);
            },
        }
        let existing = match self.save_settings_repository.get_settings(profile_id.as_str()) {
            Ok(s) => s,
            Err(_) => {
                return Err(ProfileServiceError::Unavailable);
            },
        };
        let save = match save_directory {
            Some(directory) => match self.save_directory_validator.validate_save_directory(
                game_id.as_str(),
                directory.as_str(),
            ) {
                Ok(s) => s,
                Err(_) => {
                    return Err(ProfileServiceError::Unavailable);
                },
            },
            None => match &existing {
                Some(s) => s.save_directory.clone(),
                None => unset_save_directory(),
            },
        };
        let backup = match backup_directory {
            Some(directory) => match self.save_directory_validator.validate_backup_directory(
                game_id.as_str(),
                directory.as_str(),
            ) {
                Ok(s) => s,
                Err(_) => {
                    return Err(ProfileServiceError::Unavailable);
                },
            },
            None => match &existing {
                Some(s) => s.backup_directory.clone(),
                None => match self.save_directory_validator.default_backup_directory(game_id.as_str()) {
                    Ok(s) => s,
                    Err(_) => {
                        return Err(ProfileServiceError::Unavailable);
                    },
                },
            },
        };
        match validate_schedule(&schedule) {
            Err(e) => {
                return Err(ProfileServiceError::Rule(e));
            },
            Ok(()) => {},
        }
        match validate_retention(&retention) {
            Err(e) => {
                return Err(ProfileServiceError::Rule(e));
            },
            Ok(()) => {},
        }
        let now = match self.now() {
            Ok(n) => n,
            Err(e) => {
                return Err(e);
            },
        };
        let settings = changed_save_settings(
            profile_id,
            save,
            backup,
            schedule,
            retention,
            pre_restore_backup_enabled,
            &existing,
            now,
            self.windows_paths,
        );
        match self.save_settings_repository.save_settings(&settings) {
            Ok(()) => Ok(settings),
            Err(_) => Err(ProfileServiceError::Unavailable),
        }
    }
}

} // verus!
