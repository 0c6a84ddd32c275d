//! Settings of the command line and of a file: what was typed wins over the file,
//! and the file over the defaults.

use crate::mode::SchedulingMode;
use vstd::prelude::*;

verus! {

/// Default time of silence after which a link has timed out.
pub const CONN_TIMEOUT_MS: u64 = 15_000;

/// Settings that a file can give.
#[derive(Debug, Clone, Copy, PartialEq, Eq, Structural)]
pub struct CliSettings {
    pub mode: SchedulingMode,
    pub no_quality: bool,
    pub no_stall_deselect: bool,
    pub stall_min_in_flight: i32,
    pub stall_ack_stale_ms: u64,
    pub conn_timeout_ms: u64,
}

/// Which settings were typed on the command line.
#[derive(Debug, Clone, Copy, PartialEq, Eq, Structural)]
pub struct TypedFlags {
    pub mode: bool,
    pub no_quality: bool,
    pub no_stall_deselect: bool,
    pub stall_min_in_flight: bool,
    pub stall_ack_stale_ms: bool,
    pub conn_timeout_ms: bool,
}

/// The settings that a file gives.
#[derive(Debug, Clone, Copy, PartialEq, Eq, Structural)]
pub struct FileSettings {
    pub mode: Option<SchedulingMode>,
    pub no_quality: Option<bool>,
    pub no_stall_deselect: Option<bool>,
    pub stall_min_in_flight: Option<i32>,
    pub stall_ack_stale_ms: Option<u64>,
    pub conn_timeout_ms: Option<u64>,
}

/// The value that holds: the file's where it gives one and none was typed.
pub open spec fn effective<T>(cli: T, typed: bool, file: Option<T>) -> T {
    match file {
        Some(value) => if typed {
            cli
        } else {
            value
        },
        None => cli,
    }
}

fn pick<T: Copy>(cli: T, typed: bool, file: Option<T>) -> (r: T)
    ensures
        r == effective(cli, typed, file),
{
    match file {
        Some(value) => if typed {
            cli
        } else {
            value
        },
        None => cli,
    }
}

impl CliSettings {
    /// The settings with what the file gives and was not typed.
    pub open spec fn with_file(&self, typed: TypedFlags, file: FileSettings) -> Self {
        CliSettings {
            mode: effective(self.mode, typed.mode, file.mode),
            no_quality: effective(self.no_quality, typed.no_quality, file.no_quality),
            no_stall_deselect: effective(
                self.no_stall_deselect,
                typed.no_stall_deselect,
                file.no_stall_deselect,
            ),
            stall_min_in_flight: effective(
                self.stall_min_in_flight,
                typed.stall_min_in_flight,
                file.stall_min_in_flight,
            ),
            stall_ack_stale_ms: effective(
                self.stall_ack_stale_ms,
                typed.stall_ack_stale_ms,
                file.stall_ack_stale_ms,
            ),
            conn_timeout_ms: effective(
                self.conn_timeout_ms,
                typed.conn_timeout_ms,
                file.conn_timeout_ms,
            ),
        }
    }

    /// Takes over what the file gives and was not typed.
    pub fn apply_config_file(&mut self, typed: &TypedFlags, file: &FileSettings)
        ensures
            *final(self) == old(self).with_file(*typed, *file),
    {
        self.mode = pick(self.mode, typed.mode, file.mode);
        self.no_quality = pick(self.no_quality, typed.no_quality, file.no_quality);
        self.no_stall_deselect = pick(
            self.no_stall_deselect,
            typed.no_stall_deselect,
            file.no_stall_deselect,
        );
        self.stall_min_in_flight = pick(
            self.stall_min_in_flight,
            typed.stall_min_in_flight,
            file.stall_min_in_flight,
        );
        self.stall_ack_stale_ms = pick(
            self.stall_ack_stale_ms,
            typed.stall_ack_stale_ms,
            file.stall_ack_stale_ms,
        );
        self.conn_timeout_ms = pick(
            self.conn_timeout_ms,
            typed.conn_timeout_ms,
            file.conn_timeout_ms,
        );
    }
}

/// What was typed wins over the file.
pub proof fn typed_wins<T>(cli: T, file: Option<T>)
    ensures
        effective(cli, true, file) == cli,
{
}

/// The file wins over what was not typed, and what it does not give stays.
pub proof fn file_fills_what_was_not_typed<T>(cli: T, value: T, typed: bool)
    ensures
        effective(cli, false, Some(value)) == value,
        effective(cli, typed, None) == cli,
{
}

/// Each setting comes from the file's setting of the same name, and from no other: a file
/// that gives all, where nothing was typed, gives them all; where all was typed, or the
/// file gives nothing, all stay.
pub proof fn settings_keep_their_places(
    cli: CliSettings,
    all: CliSettings,
    typed: TypedFlags,
    file: FileSettings,
)
    requires
        file == (FileSettings {
            mode: Some(all.mode),
            no_quality: Some(all.no_quality),
            no_stall_deselect: Some(all.no_stall_deselect),
            stall_min_in_flight: Some(all.stall_min_in_flight),
            stall_ack_stale_ms: Some(all.stall_ack_stale_ms),
            conn_timeout_ms: Some(all.conn_timeout_ms),
        }),
    ensures
        ({
            let after = cli.with_file(typed, file);
            &&& typed.mode ==> after.mode == cli.mode
            &&& !typed.mode ==> after.mode == all.mode
            &&& typed.no_quality ==> after.no_quality == cli.no_quality
            &&& !typed.no_quality ==> after.no_quality == all.no_quality
            &&& typed.no_stall_deselect ==> after.no_stall_deselect == cli.no_stall_deselect
            &&& !typed.no_stall_deselect ==> after.no_stall_deselect == all.no_stall_deselect
            &&& typed.stall_min_in_flight ==> after.stall_min_in_flight == cli.stall_min_in_flight
            &&& !typed.stall_min_in_flight ==> after.stall_min_in_flight == all.stall_min_in_flight
            &&& typed.stall_ack_stale_ms ==> after.stall_ack_stale_ms == cli.stall_ack_stale_ms
            &&& !typed.stall_ack_stale_ms ==> after.stall_ack_stale_ms == all.stall_ack_stale_ms
            &&& typed.conn_timeout_ms ==> after.conn_timeout_ms == cli.conn_timeout_ms
            &&& !typed.conn_timeout_ms ==> after.conn_timeout_ms == all.conn_timeout_ms
        }),
{
}

} // verus!
