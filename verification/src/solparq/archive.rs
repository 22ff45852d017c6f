//! Planning, naming and reporting of ledger archives.
use vstd::prelude::*;

use crate::clickhouse::sharding;
use crate::text;
use crate::text_search;

verus! {

/// Slots in an hourly archive.
pub const HOURLY_SLOTS: u64 = 9_000;

/// Slots in an epoch archive.
pub const EPOCH_SLOTS: u64 = 432_000;

/// Slots in a custom archive whose size is not given.
pub const DEFAULT_CUSTOM_SLOTS: u64 = 1_000;

/// How an archive is cut.
#[derive(Debug, Clone, Copy, PartialEq, Eq, Structural, Hash)]
pub enum ArchiveKind {
    Hourly,
    Epoch,
    Custom { slots: u64 },
}

/// The smallest multiple of `width` that is not below `value`.
pub open spec fn aligned_up(value: int, width: int) -> int {
    if value % width == 0 {
        value
    } else {
        (value / width + 1) * width
    }
}

/// Aligning gives the smallest multiple that is not below the value.
pub proof fn law_aligned_up_is_least_multiple(value: int, width: int, other: int)
    requires
        width > 0,
        value <= other * width,
    ensures
        aligned_up(value, width) % width == 0,
        value <= aligned_up(value, width) <= other * width,
{
    let q = value / width;
    vstd::arithmetic::div_mod::lemma_fundamental_div_mod(value, width);
    if value % width == 0 {
    } else {
        vstd::arithmetic::div_mod::lemma_mod_multiples_basic(q + 1, width);
        assert((q + 1) * width == q * width + width) by (nonlinear_arith);
        assert(width * q == q * width) by (nonlinear_arith);
        assert(value > q * width);
        assert(other > q) by (nonlinear_arith)
            requires
                width > 0,
                value > q * width,
                value <= other * width,
        ;
        assert((q + 1) * width <= other * width) by (nonlinear_arith)
            requires
                width > 0,
                other >= q + 1,
        ;
    }
}

/// The smallest multiple of a width that is not below a value.
pub fn align_up(value: u64, width: u64) -> (r: u64)
    requires
        width > 0,
        aligned_up(value as int, width as int) <= u64::MAX,
    ensures
        r == aligned_up(value as int, width as int),
{
    if value % width == 0 {
        value
    } else {
        proof {
            assert(0 <= (value / width + 1) * width) by (nonlinear_arith)
                requires
                    width > 0,
                    value >= 0,
            ;
            assert(value / width + 1 <= (value / width + 1) * width) by (nonlinear_arith)
                requires
                    width > 0,
                    value / width >= 0,
            ;
        }
        (value / width + 1) * width
    }
}

impl ArchiveKind {
    /// The label of a kind.
    pub open spec fn label_text(self) -> Seq<char> {
        match self {
            ArchiveKind::Hourly => "hourly"@,
            ArchiveKind::Epoch => "epoch"@,
            ArchiveKind::Custom { .. } => "custom"@,
        }
    }

    /// The number of slots of an archive.
    pub open spec fn slots_per_archive(self) -> u64 {
        match self {
            ArchiveKind::Hourly => HOURLY_SLOTS,
            ArchiveKind::Epoch => EPOCH_SLOTS,
            ArchiveKind::Custom { slots } => slots,
        }
    }

    /// The first slot of the first archive, given the earliest slot there is.
    pub open spec fn first_start(self, earliest_slot: u64) -> int {
        match self {
            ArchiveKind::Epoch => aligned_up(earliest_slot as int, EPOCH_SLOTS as int),
            ArchiveKind::Hourly | ArchiveKind::Custom { .. } => earliest_slot as int,
        }
    }

    /// A kind as it is written in a configuration.
    pub open spec fn display(self) -> Seq<char> {
        match self {
            ArchiveKind::Hourly => "hourly"@,
            ArchiveKind::Epoch => "epoch"@,
            ArchiveKind::Custom { slots } => ("custom:"@ + text::dec(slots as nat)),
        }
    }

    /// The label of a kind.
    pub fn label(self) -> (r: &'static str)
        ensures
            r@ == self.label_text(),
    {
        match self {
            ArchiveKind::Hourly => "hourly",
            ArchiveKind::Epoch => "epoch",
            ArchiveKind::Custom { .. } => "custom",
        }
    }

    /// The number of slots of an archive.
    pub fn slot_count(self) -> (r: u64)
        ensures
            r == self.slots_per_archive(),
    {
        match self {
            ArchiveKind::Hourly => HOURLY_SLOTS,
            ArchiveKind::Epoch => EPOCH_SLOTS,
            ArchiveKind::Custom { slots } => slots,
        }
    }

    /// The first slot of the first archive, given the earliest slot there is.
    pub fn first_start_slot(self, earliest_slot: u64) -> (r: u64)
        requires
            self.first_start(earliest_slot) <= u64::MAX,
        ensures
            r == self.first_start(earliest_slot),
    {
        match self {
            ArchiveKind::Epoch => align_up(earliest_slot, EPOCH_SLOTS),
            ArchiveKind::Hourly | ArchiveKind::Custom { .. } => earliest_slot,
        }
    }

    /// Writes a kind as it is written in a configuration.
    pub fn to_text(&self) -> (r: String)
        ensures
            r@ == self.display(),
    {
        match *self {
            ArchiveKind::Hourly => "hourly".to_owned(),
            ArchiveKind::Epoch => "epoch".to_owned(),
            ArchiveKind::Custom { slots } => {
                let mut m = "custom:".to_owned();
                m.append(text::dec_string(slots as u64).as_str());
                m
            },
        }
    }

    /// Reads a kind from a configuration.
    pub fn parse(value: &str) -> (r: Result<ArchiveKind, String>)
        ensures
            match r {
                Ok(kind) => parsed_kind(value@) == Ok::<ArchiveKind, Seq<char>>(kind),
                Err(e) => parsed_kind(value@) == Err::<ArchiveKind, Seq<char>>(e@),
            },
    {
        let trimmed = text_search::trim_text(value);
        let normalized = text_search::lower_text(trimmed.as_str());
        if text::text_eq(normalized.as_str(), "hourly") {
            return Ok(ArchiveKind::Hourly);
        }
        if text::text_eq(normalized.as_str(), "epoch") {
            return Ok(ArchiveKind::Epoch);
        }
        if text::text_eq(normalized.as_str(), "custom") {
            return Ok(ArchiveKind::Custom { slots: DEFAULT_CUSTOM_SLOTS });
        }
        if text_search::starts_with_text(normalized.as_str(), "custom:") {
            let digits = strip_custom(normalized.as_str());
            return match text::parse_u64_text(digits.as_str()) {
                None => Err({
                    let mut m = "invalid custom archive slot count in '".to_owned();
                    m.append(value);
                    m.append("'");
                    m
                }),
                Some(slots) => {
                    if slots == 0 {
                        Err("custom archive slot count must be greater than zero".to_owned())
                    } else {
                        Ok(ArchiveKind::Custom { slots })
                    }
                },
            };
        }
        Err({
            let mut m = "unsupported archive range type '".to_owned();
            m.append(value);
            m.append("' (valid: hourly, epoch, custom, custom:<slots>)");
            m
        })
    }
}

impl std::str::FromStr for ArchiveKind {
    type Err = String;

    /// Reads a kind from a configuration.
    fn from_str(value: &str) -> (r: Result<ArchiveKind, String>)
        ensures
            match r {
                Ok(kind) => parsed_kind(value@) == Ok::<ArchiveKind, Seq<char>>(kind),
                Err(e) => parsed_kind(value@) == Err::<ArchiveKind, Seq<char>>(e@),
            },
    {
        ArchiveKind::parse(value)
    }
}

/// A text without the prefixes `custom:` that it begins with, however many there are.
pub open spec fn without_custom(s: Seq<char>) -> Seq<char>
    decreases s.len(),
{
    if text_search::starts_with(s, "custom:"@) && "custom:"@.len() > 0 {
        without_custom(s.skip("custom:"@.len() as int))
    } else {
        s
    }
}

fn strip_custom(value: &str) -> (r: String)
    ensures
        r@ == without_custom(value@),
{
    let mut rest = value.to_owned();
    proof {
        reveal_strlit("custom:");
    }
    loop
        invariant
            without_custom(rest@) == without_custom(value@),
            "custom:"@.len() > 0,
        ensures
            rest@ == without_custom(value@),
        decreases rest@.len(),
    {
        match text_search::strip_prefix_text(rest.as_str(), "custom:") {
            Some(shorter) => {
                rest = shorter;
            },
            None => {
                break;
            },
        }
    }
    rest
}

/// The kind that a text of a configuration means, or what is wrong with it.
pub open spec fn parsed_kind(value: Seq<char>) -> Result<ArchiveKind, Seq<char>> {
    let normalized = text_search::lower(text_search::trim(value));
    if normalized == "hourly"@ {
        Ok(ArchiveKind::Hourly)
    } else if normalized == "epoch"@ {
        Ok(ArchiveKind::Epoch)
    } else if normalized == "custom"@ {
        Ok(ArchiveKind::Custom { slots: DEFAULT_CUSTOM_SLOTS })
    } else if text_search::starts_with(normalized, "custom:"@) {
        match text::unsigned_text(without_custom(normalized), u64::MAX as nat) {
            None => Err(("invalid custom archive slot count in '"@ + value + "'"@)),
            Some(slots) => if slots == 0 {
                Err("custom archive slot count must be greater than zero"@)
            } else {
                Ok(ArchiveKind::Custom { slots: slots as u64 })
            },
        }
    } else {
        Err(("unsupported archive range type '"@ + value + "' (valid: hourly, epoch, custom, custom:<slots>)"@))
    }
}

/// The slots that the database holds.
#[derive(Debug, Clone, Copy, PartialEq, Eq, Structural)]
pub struct ClickHouseBounds {
    pub earliest_slot: u64,
    pub latest_slot: u64,
}

impl ClickHouseBounds {
    /// How many slots there are, one where the bounds are crossed.
    pub open spec fn available(self) -> u64 {
        let span = if self.latest_slot < self.earliest_slot {
            0
        } else {
            self.latest_slot - self.earliest_slot
        };
        if span + 1 > u64::MAX {
            u64::MAX
        } else {
            (span + 1) as u64
        }
    }

    /// How many slots there are.
    pub fn slots_available(self) -> (r: u64)
        ensures
            r == self.available(),
    {
        self.latest_slot.saturating_sub(self.earliest_slot).saturating_add(1)
    }
}

/// An archive to make.
#[derive(Debug, Clone, Copy, PartialEq, Eq, Structural)]
pub struct ArchivePlan {
    pub kind: ArchiveKind,
    pub epoch: u64,
    pub start_slot: u64,
    pub end_slot: u64,
}

impl ArchivePlan {
    /// The file name of an archive.
    pub open spec fn name(self) -> Seq<char> {
        (self.kind.label_text() + "_"@ + text::dec(self.epoch as nat) + "_"@ + text::dec(self.start_slot as nat) + "-"@ + text::dec(self.end_slot as nat) + ".parquet"@)
    }

    /// The file name of an archive.
    pub fn file_name(&self) -> (r: String)
        ensures
            r@ == self.name(),
    {
        let mut m = self.kind.label().to_owned();
        m.append("_");
        m.append(text::dec_string(self.epoch as u64).as_str());
        m.append("_");
        m.append(text::dec_string(self.start_slot as u64).as_str());
        m.append("-");
        m.append(text::dec_string(self.end_slot as u64).as_str());
        m.append(".parquet");
        m
    }
}

/// What an archive's file name says.
#[derive(Debug)]
pub struct ParsedArchiveName {
    pub kind_label: String,
    pub epoch: u64,
    pub start_slot: u64,
    pub end_slot: u64,
}

/// What an archive's file name says, as values.
pub struct NameParts {
    pub kind_label: Seq<char>,
    pub epoch: nat,
    pub start_slot: nat,
    pub end_slot: nat,
}

/// What a file name of the form `kind_epoch_start-end.parquet` says.
pub open spec fn name_parts(file_name: Seq<char>) -> Option<NameParts> {
    let stem = file_name.take(file_name.len() - ".parquet"@.len());
    let p = text_search::first_position(stem, '_');
    let rest = stem.skip(p + 1);
    let q = text_search::first_position(rest, '_');
    let range = rest.skip(q + 1);
    let d = text_search::first_position(range, '-');
    let epoch = text::unsigned_text(rest.take(q), u64::MAX as nat);
    let start = text::unsigned_text(range.take(d), u64::MAX as nat);
    let end = text::unsigned_text(range.skip(d + 1), u64::MAX as nat);
    if !text_search::ends_with(file_name, ".parquet"@) || p == stem.len() || q == rest.len()
        || text_search::first_position(range, '_') < range.len() || d == range.len() || epoch is None
        || start is None || end is None {
        None
    } else {
        Some(
            NameParts {
                kind_label: stem.take(p),
                epoch: epoch->0,
                start_slot: start->0,
                end_slot: end->0,
            },
        )
    }
}

/// Reads an archive's file name.
pub fn parse_archive_name(file_name: &str) -> (r: Option<ParsedArchiveName>)
    ensures
        match r {
            Some(parsed) => name_parts(file_name@) == Some(
                NameParts {
                    kind_label: parsed.kind_label@,
                    epoch: parsed.epoch as nat,
                    start_slot: parsed.start_slot as nat,
                    end_slot: parsed.end_slot as nat,
                },
            ),
            None => name_parts(file_name@) is None,
        },
{
    let stem = match text_search::strip_suffix_text(file_name, ".parquet") {
        Some(stem) => stem,
        None => {
            return None;
        },
    };
    let (kind_label, rest) = match text_search::split_once_text(stem.as_str(), '_') {
        Some(parts) => parts,
        None => {
            return None;
        },
    };
    let (epoch_text, range) = match text_search::split_once_text(rest.as_str(), '_') {
        Some(parts) => parts,
        None => {
            return None;
        },
    };
    proof {
        text_search::lemma_first_position(range@, '_');
    }
    if text_search::split_once_text(range.as_str(), '_').is_some() {
        return None;
    }
    let (start_text, end_text) = match text_search::split_once_text(range.as_str(), '-') {
        Some(parts) => parts,
        None => {
            return None;
        },
    };
    let epoch: u64 = match text::parse_u64_text(epoch_text.as_str()) {
        Some(epoch) => epoch,
        None => {
            return None;
        },
    };
    let start_slot: u64 = match text::parse_u64_text(start_text.as_str()) {
        Some(start_slot) => start_slot,
        None => {
            return None;
        },
    };
    let end_slot: u64 = match text::parse_u64_text(end_text.as_str()) {
        Some(end_slot) => end_slot,
        None => {
            return None;
        },
    };
    Some(ParsedArchiveName { kind_label, epoch, start_slot, end_slot })
}

/// The decimal text of a number denotes it.
proof fn lemma_unsigned_text_of_dec(n: nat)
    requires
        n <= u64::MAX,
    ensures
        text::unsigned_text(text::dec(n), u64::MAX as nat) == Some(n),
{
    text::law_decimal_round_trip(n);
    assert(text::is_digit(text::dec(n)[0]));
}

/// Reading the file name of an archive gives back its label, epoch and slots.
pub proof fn law_archive_name_round_trip(plan: ArchivePlan)
    ensures
        name_parts(plan.name()) == Some(
            NameParts {
                kind_label: plan.kind.label_text(),
                epoch: plan.epoch as nat,
                start_slot: plan.start_slot as nat,
                end_slot: plan.end_slot as nat,
            },
        ),
{
    reveal_strlit("_");
    reveal_strlit("-");
    reveal_strlit(".parquet");
    reveal_strlit("hourly");
    reveal_strlit("epoch");
    reveal_strlit("custom");
    let label = plan.kind.label_text();
    let epoch = text::dec(plan.epoch as nat);
    let start = text::dec(plan.start_slot as nat);
    let end = text::dec(plan.end_slot as nat);
    lemma_unsigned_text_of_dec(plan.epoch as nat);
    lemma_unsigned_text_of_dec(plan.start_slot as nat);
    lemma_unsigned_text_of_dec(plan.end_slot as nat);
    text::law_decimal_round_trip(plan.epoch as nat);
    text::law_decimal_round_trip(plan.start_slot as nat);
    text::law_decimal_round_trip(plan.end_slot as nat);
    let file_name = plan.name();
    let range = start + seq!['-'] + end;
    let rest = epoch + seq!['_'] + range;
    let stem = label + seq!['_'] + rest;
    assert(file_name =~= stem + ".parquet"@);
    assert(file_name.take(file_name.len() - ".parquet"@.len()) =~= stem);
    assert(text_search::ends_with(file_name, ".parquet"@)) by {
        assert(file_name.subrange(
            file_name.len() - ".parquet"@.len(),
            file_name.len() as int,
        ) =~= ".parquet"@);
    }
    text_search::lemma_first_position_of_join(label, '_', rest);
    assert(stem.skip(label.len() as int + 1) =~= rest);
    assert(stem.take(label.len() as int) =~= label);
    assert forall|i: int| 0 <= i < epoch.len() implies #[trigger] epoch[i] != '_' by {
        assert(text::is_digit(epoch[i]));
    }
    text_search::lemma_first_position_of_join(epoch, '_', range);
    assert(rest.skip(epoch.len() as int + 1) =~= range);
    assert(rest.take(epoch.len() as int) =~= epoch);
    text_search::lemma_first_position(range, '_');
    assert forall|i: int| 0 <= i < range.len() implies #[trigger] range[i] != '_' by {
        if i < start.len() {
            assert(text::is_digit(start[i]));
        } else if i > start.len() {
            assert(text::is_digit(end[i - start.len() - 1]));
        }
    }
    assert forall|i: int| 0 <= i < start.len() implies #[trigger] start[i] != '-' by {
        assert(text::is_digit(start[i]));
    }
    text_search::lemma_first_position_of_join(start, '-', end);
    assert(range.take(start.len() as int) =~= start);
    assert(range.skip(start.len() as int + 1) =~= end);
}

/// Whether planning starts afresh: there are slots, and no archive to continue from, or one that
/// ends before the slots that there are.
pub open spec fn starts_afresh(
    kind: ArchiveKind,
    bounds: ClickHouseBounds,
    last_archive_name: Option<Seq<char>>,
    continue_from_last_archive: bool,
) -> bool {
    &&& bounds.earliest_slot <= bounds.latest_slot
    &&& last_archive_name is Some && continue_from_last_archive ==> (name_parts(
        last_archive_name->0,
    ) matches Some(parts) && parts.kind_label == kind.label_text() && parts.end_slot
        < bounds.earliest_slot)
}

/// The plan that starts at a slot, where its slots are all there.
pub open spec fn plan_from(kind: ArchiveKind, bounds: ClickHouseBounds, start_slot: int) -> Result<
    Option<ArchivePlan>,
    Seq<char>,
> {
    let end_slot = start_slot + kind.slots_per_archive() - 1;
    if end_slot > u64::MAX {
        Err("archive end slot overflowed"@)
    } else if end_slot > bounds.latest_slot {
        Ok(None)
    } else {
        Ok(
            Some(
                ArchivePlan {
                    kind,
                    epoch: (start_slot / EPOCH_SLOTS as int) as u64,
                    start_slot: start_slot as u64,
                    end_slot: end_slot as u64,
                },
            ),
        )
    }
}

/// The next archive to make, or what is wrong with the last one.
pub open spec fn next_plan(
    kind: ArchiveKind,
    bounds: ClickHouseBounds,
    last_archive_name: Option<Seq<char>>,
    continue_from_last_archive: bool,
) -> Result<Option<ArchivePlan>, Seq<char>> {
    if bounds.latest_slot < bounds.earliest_slot {
        Ok(None)
    } else if last_archive_name is Some && continue_from_last_archive {
        let file_name = last_archive_name->0;
        match name_parts(file_name) {
            None => Err(("unable to parse last archive name '"@ + file_name + "'"@)),
            Some(parts) => if parts.kind_label != kind.label_text() {
                Err(("last archive name '"@ + file_name + "' does not match archive type '"@ + kind.label_text() + "'"@))
            } else if parts.end_slot < bounds.earliest_slot {
                plan_from(kind, bounds, kind.first_start(bounds.earliest_slot))
            } else if parts.end_slot == u64::MAX {
                Err("last archive end slot overflowed"@)
            } else {
                plan_from(kind, bounds, parts.end_slot as int + 1)
            },
        }
    } else {
        plan_from(kind, bounds, kind.first_start(bounds.earliest_slot))
    }
}

/// The text of an optional text.
pub open spec fn opt_str(s: Option<&str>) -> Option<Seq<char>> {
    match s {
        Some(t) => Some(t@),
        None => None,
    }
}

/// Plans the next archive. An archive has at least one slot; the first slot of an epoch archive
/// has to fit in 64 bits where it is to be found.
pub fn plan_next_archive(
    kind: ArchiveKind,
    bounds: ClickHouseBounds,
    last_archive_name: Option<&str>,
    continue_from_last_archive: bool,
) -> (r: Result<Option<ArchivePlan>, String>)
    requires
        kind.slots_per_archive() > 0,
        starts_afresh(
            kind,
            bounds,
            opt_str(last_archive_name),
            continue_from_last_archive,
        ) ==> kind.first_start(bounds.earliest_slot) <= u64::MAX,
    ensures
        match r {
            Ok(plan) => next_plan(
                kind,
                bounds,
                opt_str(last_archive_name),
                continue_from_last_archive,
            ) == Ok::<Option<ArchivePlan>, Seq<char>>(plan),
            Err(e) => next_plan(
                kind,
                bounds,
                opt_str(last_archive_name),
                continue_from_last_archive,
            ) == Err::<Option<ArchivePlan>, Seq<char>>(e@),
        },
{
    if bounds.latest_slot < bounds.earliest_slot {
        return Ok(None);
    }
    let last = if continue_from_last_archive {
        last_archive_name
    } else {
        None
    };
    let start_slot: u64 = match last {
        Some(file_name) => {
            let parsed = match parse_archive_name(file_name) {
                Some(parsed) => parsed,
                None => {
                    return Err({
                        let mut m = "unable to parse last archive name '".to_owned();
                        m.append(file_name);
                        m.append("'");
                        m
                    });
                },
            };
            if !text::text_eq(parsed.kind_label.as_str(), kind.label()) {
                return Err({
                    let mut m = "last archive name '".to_owned();
                    m.append(file_name);
                    m.append("' does not match archive type '");
                    m.append(kind.label());
                    m.append("'");
                    m
                });
            }
            if parsed.end_slot < bounds.earliest_slot {
                kind.first_start_slot(bounds.earliest_slot)
            } else {
                match parsed.end_slot.checked_add(1) {
                    Some(start_slot) => start_slot,
                    None => {
                        return Err("last archive end slot overflowed".to_owned());
                    },
                }
            }
        },
        None => kind.first_start_slot(bounds.earliest_slot),
    };
    let end_slot: u64 = match start_slot.checked_add(kind.slot_count() - 1) {
        Some(end_slot) => end_slot,
        None => {
            return Err("archive end slot overflowed".to_owned());
        },
    };
    if end_slot > bounds.latest_slot {
        return Ok(None);
    }
    Ok(Some(ArchivePlan { kind, epoch: start_slot / EPOCH_SLOTS, start_slot, end_slot }))
}

/// A planned archive holds exactly the slots of its kind, all of them slots that the database has,
/// and its epoch is that of its first slot.
pub proof fn law_planned_archive_is_complete(
    kind: ArchiveKind,
    bounds: ClickHouseBounds,
    last_archive_name: Option<Seq<char>>,
    continue_from_last_archive: bool,
)
    requires
        kind.slots_per_archive() > 0,
    ensures
        next_plan(kind, bounds, last_archive_name, continue_from_last_archive) matches Ok(Some(plan))
            ==> {
            &&& plan.kind == kind
            &&& bounds.earliest_slot <= plan.start_slot <= plan.end_slot <= bounds.latest_slot
            &&& plan.end_slot - plan.start_slot + 1 == kind.slots_per_archive()
            &&& plan.epoch == plan.start_slot as int / EPOCH_SLOTS as int
        },
{
    assert(bounds.earliest_slot <= kind.first_start(bounds.earliest_slot)) by {
        law_aligned_up_is_least_multiple(
            bounds.earliest_slot as int,
            EPOCH_SLOTS as int,
            bounds.earliest_slot as int,
        );
    }
}

/// Archives follow each other: continuing after an archive whose end is still in the database, the
/// next one of the same kind starts with the slot after it. It is planned as soon as the database
/// holds all its slots.
pub proof fn law_archives_are_contiguous(previous: ArchivePlan, bounds: ClickHouseBounds)
    requires
        previous.kind.slots_per_archive() > 0,
        bounds.earliest_slot <= previous.end_slot,
    ensures
        next_plan(previous.kind, bounds, Some(previous.name()), true) matches Ok(Some(next)) ==> {
            &&& next.start_slot == previous.end_slot + 1
            &&& next.kind == previous.kind
        },
        previous.end_slot + previous.kind.slots_per_archive() <= bounds.latest_slot ==> next_plan(
            previous.kind,
            bounds,
            Some(previous.name()),
            true,
        ) matches Ok(Some(_)),
{
    law_archive_name_round_trip(previous);
}

/// An epoch archive that is planned afresh, or after one that started at the start of an epoch,
/// covers exactly one epoch.
pub proof fn law_epoch_archives_cover_epochs(previous: ArchivePlan, bounds: ClickHouseBounds, fresh: bool)
    requires
        previous.kind == ArchiveKind::Epoch,
        previous.start_slot as int % EPOCH_SLOTS as int == 0,
        previous.end_slot == previous.start_slot + EPOCH_SLOTS - 1,
    ensures
        next_plan(ArchiveKind::Epoch, bounds, Some(previous.name()), !fresh) matches Ok(Some(next))
            ==> next.start_slot == next.epoch * EPOCH_SLOTS && next.end_slot == next.epoch
            * EPOCH_SLOTS + EPOCH_SLOTS - 1,
{
    law_archive_name_round_trip(previous);
    law_aligned_up_is_least_multiple(
        bounds.earliest_slot as int,
        EPOCH_SLOTS as int,
        bounds.earliest_slot as int,
    );
}

/// The settings of the archiver that decisions depend on.
#[derive(Debug)]
pub struct Config {
    pub archive_kinds: Vec<ArchiveKind>,
    pub delete_archived_data_range: bool,
    pub continue_from_last_archive: bool,
    pub force_archive: bool,
    pub server_mode: bool,
    pub archive_location: String,
    pub output_location: String,
    pub transactions_table: String,
    pub blocks_table: String,
    pub archives_to_keep: u64,
    pub archive_check_interval_secs: u64,
}

/// Whether a kind is one of the largest that are configured.
pub open spec fn is_largest_kind(kinds: Seq<ArchiveKind>, kind: ArchiveKind) -> bool {
    &&& exists|i: int|
        0 <= i < kinds.len() && (#[trigger] kinds[i]).slots_per_archive() == kind.slots_per_archive()
    &&& forall|i: int|
        0 <= i < kinds.len() ==> (#[trigger] kinds[i]).slots_per_archive()
            <= kind.slots_per_archive()
}

/// Whether the slots of an archive are to be deleted from the database once it is made: only where
/// that is configured, and only after the largest kind, which no other kind still needs.
pub fn should_delete_archived_data_range(config: &Config, kind: ArchiveKind) -> (r: bool)
    ensures
        r == (config.delete_archived_data_range && is_largest_kind(config.archive_kinds@, kind)),
{
    if !config.delete_archived_data_range {
        return false;
    }
    let kinds = &config.archive_kinds;
    let mut found = false;
    let mut i: usize = 0;
    while i < kinds.len()
        invariant
            i <= kinds.len(),
            kinds@ == config.archive_kinds@,
            forall|k: int|
                0 <= k < i ==> (#[trigger] kinds@[k]).slots_per_archive()
                    <= kind.slots_per_archive(),
            found <==> exists|k: int|
                0 <= k < i && (#[trigger] kinds@[k]).slots_per_archive()
                    == kind.slots_per_archive(),
        decreases kinds.len() - i,
    {
        let slots: u64 = kinds[i].slot_count();
        if slots > kind.slot_count() {
            assert(kinds@[i as int].slots_per_archive() > kind.slots_per_archive());
            return false;
        }
        if slots == kind.slot_count() {
            assert(kinds@[i as int].slots_per_archive() == kind.slots_per_archive());
            found = true;
        }
        i += 1;
    }
    found
}

/// What the check of an archive's slots found. Ranges are texts already.
#[derive(Debug)]
pub struct ValidationReport {
    pub missing_blocks: u64,
    pub missing_block_ranges: String,
    pub not_produced_slot_ranges: String,
    pub transaction_mismatches: u64,
    pub transaction_mismatch_ranges: String,
    pub rpc_check_error: Option<String>,
    pub has_warnings: bool,
}

/// What a run of the archiver did.
#[derive(Debug)]
pub struct ArchiveRunReport {
    pub timestamp_unix: u64,
    pub archive_created: bool,
    pub archive_skipped_reason: Option<String>,
    pub archive_name: Option<String>,
    pub archive_kind: ArchiveKind,
    pub archive_epoch: Option<u64>,
    pub archive_slot_start: Option<u64>,
    pub archive_slot_end: Option<u64>,
    pub db_bounds: Option<ClickHouseBounds>,
    pub destination: String,
    pub validation: Option<ValidationReport>,
    pub deleted_clickhouse_range: bool,
    pub cleaned_archives: Vec<String>,
}

/// A truth value as text.
pub open spec fn bool_text(b: bool) -> Seq<char> {
    if b {
        "true"@
    } else {
        "false"@
    }
}

/// Writes a truth value.
pub fn bool_str(b: bool) -> (r: &'static str)
    ensures
        r@ == bool_text(b),
{
    if b {
        "true"
    } else {
        "false"
    }
}

/// A line with an optional text.
pub open spec fn opt_text_line(label: Seq<char>, value: Option<String>) -> Seq<Seq<char>> {
    match value {
        Some(v) => seq![label + v@],
        None => Seq::empty(),
    }
}

/// A line with an optional number.
pub open spec fn opt_number_line(label: Seq<char>, value: Option<u64>) -> Seq<Seq<char>> {
    match value {
        Some(v) => seq![label + text::dec(v as nat)],
        None => Seq::empty(),
    }
}

fn push_opt_text(lines: &mut Vec<String>, label: &str, value: &Option<String>)
    ensures
        text::texts(final(lines)@) == text::texts(old(lines)@) + opt_text_line(label@, *value),
{
    if let Some(v) = value {
        let mut line = label.to_owned();
        line.append(v.as_str());
        text::push_text(lines, line);
    }
    proof {
        assert(text::texts(lines@) =~= text::texts(old(lines)@) + opt_text_line(label@, *value));
    }
}

fn push_opt_number(lines: &mut Vec<String>, label: &str, value: Option<u64>)
    ensures
        text::texts(final(lines)@) == text::texts(old(lines)@) + opt_number_line(label@, value),
{
    if let Some(v) = value {
        let mut line = label.to_owned();
        line.append(text::dec_string(v).as_str());
        text::push_text(lines, line);
    }
    proof {
        assert(text::texts(lines@) =~= text::texts(old(lines)@) + opt_number_line(label@, value));
    }
}

fn push_line(lines: &mut Vec<String>, label: &str, value: &str)
    ensures
        text::texts(final(lines)@) == text::texts(old(lines)@).push(label@ + value@),
{
    let mut line = label.to_owned();
    line.append(value);
    text::push_text(lines, line);
}

/// The lines of a report on the check of an archive's slots.
pub open spec fn validation_lines(v: ValidationReport) -> Seq<Seq<char>> {
    seq![
        "validation_missing_blocks: "@ + text::dec(v.missing_blocks as nat),
        "validation_missing_block_ranges: "@ + v.missing_block_ranges@,
        "validation_not_produced_slot_ranges: "@ + v.not_produced_slot_ranges@,
        "validation_transaction_mismatches: "@ + text::dec(v.transaction_mismatches as nat),
        "validation_transaction_mismatch_ranges: "@ + v.transaction_mismatch_ranges@,
    ] + opt_text_line("validation_rpc_check_error: "@, v.rpc_check_error)
}

fn push_validation(lines: &mut Vec<String>, v: &ValidationReport)
    ensures
        text::texts(final(lines)@) == text::texts(old(lines)@) + validation_lines(*v),
{
    let ghost before = text::texts(lines@);
    push_line(
        lines,
        "validation_missing_blocks: ",
        text::dec_string(v.missing_blocks).as_str(),
    );
    push_line(lines, "validation_missing_block_ranges: ", v.missing_block_ranges.as_str());
    push_line(lines, "validation_not_produced_slot_ranges: ", v.not_produced_slot_ranges.as_str());
    push_line(
        lines,
        "validation_transaction_mismatches: ",
        text::dec_string(v.transaction_mismatches).as_str(),
    );
    push_line(
        lines,
        "validation_transaction_mismatch_ranges: ",
        v.transaction_mismatch_ranges.as_str(),
    );
    push_opt_text(lines, "validation_rpc_check_error: ", &v.rpc_check_error);
    proof {
        assert(text::texts(lines@) =~= before + validation_lines(*v));
    }
}

impl ArchiveRunReport {
    /// The report of a run that made no archive.
    pub fn skipped(kind: ArchiveKind, destination: String, reason: String, timestamp_unix: u64) -> (r:
        ArchiveRunReport)
        ensures
            r.timestamp_unix == timestamp_unix,
            !r.archive_created,
            r.archive_skipped_reason == Some(reason),
            r.archive_name is None,
            r.archive_kind == kind,
            r.archive_epoch is None,
            r.archive_slot_start is None,
            r.archive_slot_end is None,
            r.db_bounds is None,
            r.destination == destination,
            r.validation is None,
            !r.deleted_clickhouse_range,
            r.cleaned_archives@.len() == 0,
    {
        ArchiveRunReport {
            timestamp_unix,
            archive_created: false,
            archive_skipped_reason: Some(reason),
            archive_name: None,
            archive_kind: kind,
            archive_epoch: None,
            archive_slot_start: None,
            archive_slot_end: None,
            db_bounds: None,
            destination,
            validation: None,
            deleted_clickhouse_range: false,
            cleaned_archives: Vec::new(),
        }
    }

    /// The lines on the outcome of a run.
    pub open spec fn head_lines(self) -> Seq<Seq<char>> {
        seq![
            "timestamp_unix: "@ + text::dec(self.timestamp_unix as nat),
            "archive_created: "@ + bool_text(self.archive_created),
        ] + opt_text_line("archive_skipped_reason: "@, self.archive_skipped_reason)
            + opt_text_line("archive_name: "@, self.archive_name)
            + seq!["archive_kind: "@ + self.archive_kind.display()]
    }

    /// The lines on the slots of an archive.
    pub open spec fn slot_lines(self) -> Seq<Seq<char>> {
        opt_number_line("archive_epoch: "@, self.archive_epoch) + opt_number_line(
            "archive_slot_start: "@,
            self.archive_slot_start,
        ) + opt_number_line("archive_slot_end: "@, self.archive_slot_end)
    }

    /// The lines on the slots of the database.
    pub open spec fn bounds_lines(self) -> Seq<Seq<char>> {
        match self.db_bounds {
            Some(bounds) => seq![
                "db_earliest_slot: "@ + text::dec(bounds.earliest_slot as nat),
                "db_latest_slot: "@ + text::dec(bounds.latest_slot as nat),
                "db_slots_available: "@ + text::dec(bounds.available() as nat),
            ],
            None => Seq::empty(),
        }
    }

    /// The lines on where the archive went and what was removed.
    pub open spec fn tail_lines(self) -> Seq<Seq<char>> {
        seq![
            "destination: "@ + self.destination@,
            "deleted_clickhouse_range: "@ + bool_text(self.deleted_clickhouse_range),
        ] + (if self.cleaned_archives@.len() > 0 {
            seq!["cleaned_archives: "@ + text::join(text::texts(self.cleaned_archives@), ","@)]
        } else {
            Seq::empty()
        })
    }

    /// The lines of a report.
    pub open spec fn lines(self) -> Seq<Seq<char>> {
        self.head_lines() + self.slot_lines() + self.bounds_lines() + self.tail_lines() + (
        match self.validation {
            Some(v) => validation_lines(v),
            None => Seq::empty(),
        })
    }

    fn push_head(&self, lines: &mut Vec<String>)
        ensures
            text::texts(final(lines)@) == text::texts(old(lines)@) + self.head_lines(),
    {
        let ghost before = text::texts(lines@);
        push_line(lines, "timestamp_unix: ", text::dec_string(self.timestamp_unix).as_str());
        push_line(lines, "archive_created: ", bool_str(self.archive_created));
        push_opt_text(lines, "archive_skipped_reason: ", &self.archive_skipped_reason);
        push_opt_text(lines, "archive_name: ", &self.archive_name);
        push_line(lines, "archive_kind: ", self.archive_kind.to_text().as_str());
        proof {
            assert(text::texts(lines@) =~= before + self.head_lines());
        }
    }

    fn push_slots(&self, lines: &mut Vec<String>)
        ensures
            text::texts(final(lines)@) == text::texts(old(lines)@) + self.slot_lines(),
    {
        let ghost before = text::texts(lines@);
        push_opt_number(lines, "archive_epoch: ", self.archive_epoch);
        push_opt_number(lines, "archive_slot_start: ", self.archive_slot_start);
        push_opt_number(lines, "archive_slot_end: ", self.archive_slot_end);
        proof {
            assert(text::texts(lines@) =~= before + self.slot_lines());
        }
    }

    fn push_bounds(&self, lines: &mut Vec<String>)
        ensures
            text::texts(final(lines)@) == text::texts(old(lines)@) + self.bounds_lines(),
    {
        let ghost before = text::texts(lines@);
        if let Some(bounds) = self.db_bounds {
            push_line(
                lines,
                "db_earliest_slot: ",
                text::dec_string(bounds.earliest_slot).as_str(),
            );
            push_line(lines, "db_latest_slot: ", text::dec_string(bounds.latest_slot).as_str());
            push_line(
                lines,
                "db_slots_available: ",
                text::dec_string(bounds.slots_available()).as_str(),
            );
        }
        proof {
            assert(text::texts(lines@) =~= before + self.bounds_lines());
        }
    }

    fn push_tail(&self, lines: &mut Vec<String>)
        ensures
            text::texts(final(lines)@) == text::texts(old(lines)@) + self.tail_lines(),
    {
        let ghost before = text::texts(lines@);
        push_line(lines, "destination: ", self.destination.as_str());
        push_line(lines, "deleted_clickhouse_range: ", bool_str(self.deleted_clickhouse_range));
        if self.cleaned_archives.len() > 0 {
            push_line(
                lines,
                "cleaned_archives: ",
                text::join_texts(&self.cleaned_archives, ",").as_str(),
            );
        }
        proof {
            assert(text::texts(lines@) =~= before + self.tail_lines());
        }
    }

    /// Writes a report, one fact to a line.
    pub fn to_text(&self) -> (r: String)
        ensures
            r@ == text::join(self.lines(), "\n"@),
    {
        let mut lines: Vec<String> = Vec::new();
        self.push_head(&mut lines);
        proof {
            assert(text::texts(lines@) =~= self.head_lines());
        }
        self.push_slots(&mut lines);
        self.push_bounds(&mut lines);
        self.push_tail(&mut lines);
        if let Some(v) = &self.validation {
            push_validation(&mut lines, v);
        }
        proof {
            assert(text::texts(lines@) =~= self.lines());
        }
        text::join_texts(&lines, "\n")
    }
}

/// The path of the report beside a local archive.
pub open spec fn report_path(directory: Seq<char>, archive_name: Seq<char>) -> Seq<char> {
    let name = ("."@ + archive_name + ".report.txt"@);
    if directory.len() == 0 {
        name
    } else if directory.last() == '/' {
        directory + name
    } else {
        directory + "/"@ + name
    }
}

/// Builds the path of the report beside a local archive.
pub fn report_path_for_local_archive(directory: String, archive_name: &str) -> (r: String)
    ensures
        r@ == report_path(directory@, archive_name@),
{
    let name = {
        let mut m = ".".to_owned();
        m.append(archive_name);
        m.append(".report.txt");
        m
    };
    if directory.as_str().is_empty() {
        return name;
    }
    let slash = text_search::ends_with_text(directory.as_str(), "/");
    proof {
        reveal_strlit("/");
        let n = directory@.len();
        assert(directory@.subrange(n - 1, n as int) =~= seq![directory@.last()]);
        assert("/"@ =~= seq!['/']);
        if slash {
            assert(directory@.subrange(n - 1, n as int)[0] == '/');
        }
    }
    let mut r = directory;
    if !slash {
        r.append("/");
    }
    r.append(name.as_str());
    r
}

/// A kind that is read has at least one slot.
pub proof fn law_read_kind_has_slots(value: Seq<char>)
    ensures
        parsed_kind(value) matches Ok(kind) ==> kind.slots_per_archive() >= 1,
{
}

/// Reading a kind as it is written gives it back.
pub proof fn law_archive_kind_round_trip(kind: ArchiveKind)
    requires
        kind.slots_per_archive() > 0,
    ensures
        parsed_kind(kind.display()) == Ok::<ArchiveKind, Seq<char>>(kind),
{
    reveal_strlit("hourly");
    reveal_strlit("epoch");
    reveal_strlit("custom");
    reveal_strlit("custom:");
    let shown = kind.display();
    if let ArchiveKind::Custom { slots } = kind {
        let digits = text::dec(slots as nat);
        text::law_decimal_round_trip(slots as nat);
        lemma_unsigned_text_of_dec(slots as nat);
        assert(shown =~= "custom:"@ + digits);
        assert(text::is_digit(digits[digits.len() - 1]));
        assert(shown.last() == digits[digits.len() - 1]);
        assert forall|i: int| 0 <= i < shown.len() implies text_search::ascii_lower(
            #[trigger] shown[i],
        ) == shown[i] by {
            if i >= 7 {
                assert(shown[i] == digits[i - 7]);
                assert(text::is_digit(digits[i - 7]));
            }
        }
        lemma_trim_nothing(shown);
        assert(text_search::lower(shown) =~= shown);
        assert(shown.subrange(0, 7) =~= "custom:"@);
        assert(shown[6] == ':');
        assert("custom"@.len() == 6);
        assert(text_search::starts_with(shown, "custom:"@));
        assert(shown.skip(7) =~= digits);
        assert(!text_search::starts_with(digits, "custom:"@)) by {
            if text_search::starts_with(digits, "custom:"@) {
                assert(digits.subrange(0, 7)[0] == 'c');
                assert(text::is_digit(digits[0]));
            }
        }
        assert(without_custom(digits) == digits);
        assert(without_custom(shown) == digits);
    } else {
        lemma_trim_nothing(shown);
        assert(text_search::lower(shown) =~= shown);
    }
}

/// A text without white space at its ends stays as it is.
proof fn lemma_trim_nothing(s: Seq<char>)
    requires
        s.len() > 0,
        !text_search::is_white(s[0]),
        !text_search::is_white(s.last()),
    ensures
        text_search::trim(s) == s,
{
}

/// What the archiver does next for one kind of archive.
#[derive(Debug)]
pub enum ArchiveStep {
    /// Find the slots that the database holds.
    ReadBounds,
    /// Find the name of the latest archive.
    LoadLatest { bounds: ClickHouseBounds },
    /// Check the slots of the planned archive.
    Validate { bounds: ClickHouseBounds, plan: ArchivePlan },
    /// Ask whether to make the archive in spite of the warnings.
    Confirm { bounds: ClickHouseBounds, plan: ArchivePlan, validation: ValidationReport },
    /// Write the archive.
    Create { bounds: ClickHouseBounds, plan: ArchivePlan, validation: ValidationReport },
    /// Delete the archived slots from the database.
    Delete { bounds: ClickHouseBounds, plan: ArchivePlan, validation: ValidationReport },
    /// Remove the archives that are no longer kept.
    Cleanup {
        bounds: ClickHouseBounds,
        plan: ArchivePlan,
        validation: ValidationReport,
        deleted: bool,
    },
    /// Nothing more: the run is over.
    Finished(ArchiveRunReport),
}

/// Whether a report says that no archive was made, and why.
pub open spec fn is_skip(
    report: ArchiveRunReport,
    kind: ArchiveKind,
    destination: String,
    reason: Seq<char>,
    timestamp_unix: u64,
    bounds: Option<ClickHouseBounds>,
    validation: Option<ValidationReport>,
) -> bool {
    &&& report.timestamp_unix == timestamp_unix
    &&& !report.archive_created
    &&& sharding::opt_text(report.archive_skipped_reason) == Some(reason)
    &&& report.archive_name is None
    &&& report.archive_kind == kind
    &&& report.archive_epoch is None
    &&& report.archive_slot_start is None
    &&& report.archive_slot_end is None
    &&& report.db_bounds == bounds
    &&& report.destination == destination
    &&& report.validation == validation
    &&& !report.deleted_clickhouse_range
    &&& report.cleaned_archives@.len() == 0
}

/// Whether this step follows on the slots that the database holds.
pub open spec fn follows_bounds(
    r: ArchiveStep,
    kind: ArchiveKind,
    destination: String,
    bounds: Option<ClickHouseBounds>,
    timestamp_unix: u64,
) -> bool {
    match bounds {
        Some(b) => r == (ArchiveStep::LoadLatest { bounds: b }),
        None => r matches ArchiveStep::Finished(report) && is_skip(
            report,
            kind,
            destination,
            "no transactions found in ClickHouse"@,
            timestamp_unix,
            None,
            None,
        ),
    }
}

/// Decides on the slots that the database holds.
pub fn after_bounds(
    kind: ArchiveKind,
    destination: String,
    bounds: Option<ClickHouseBounds>,
    timestamp_unix: u64,
) -> (r: ArchiveStep)
    ensures
        follows_bounds(r, kind, destination, bounds, timestamp_unix),
{
    match bounds {
        Some(bounds) => ArchiveStep::LoadLatest { bounds },
        None => ArchiveStep::Finished(
            ArchiveRunReport::skipped(
                kind,
                destination,
                "no transactions found in ClickHouse".to_owned(),
                timestamp_unix,
            ),
        ),
    }
}

/// Whether this step follows on the latest archive.
pub open spec fn follows_latest(
    r: Result<ArchiveStep, String>,
    config: Config,
    kind: ArchiveKind,
    destination: String,
    bounds: ClickHouseBounds,
    last_archive: Option<Seq<char>>,
    timestamp_unix: u64,
) -> bool {
    match next_plan(kind, bounds, last_archive, config.continue_from_last_archive) {
        Err(message) => r matches Err(e) && e@ == message,
        Ok(Some(plan)) => r == Ok::<ArchiveStep, String>(ArchiveStep::Validate { bounds, plan }),
        Ok(None) => {
            &&& r matches Ok(ArchiveStep::Finished(report))
            &&& is_skip(
                report,
                kind,
                destination,
                "not enough ClickHouse slots available for the next archive"@,
                timestamp_unix,
                Some(bounds),
                None,
            )
        },
    }
}

/// Whether an archive of a kind can be planned: a kind has slots, and the first archive starts at
/// a slot that there is.
pub open spec fn can_plan(
    config: Config,
    kind: ArchiveKind,
    bounds: ClickHouseBounds,
    last_archive: Option<Seq<char>>,
) -> bool {
    &&& kind.slots_per_archive() > 0
    &&& starts_afresh(
        kind,
        bounds,
        last_archive,
        config.continue_from_last_archive,
    ) ==> kind.first_start(bounds.earliest_slot) <= u64::MAX
}

/// Says whether an archive of a kind can be planned.
pub fn can_plan_next(
    config: &Config,
    kind: ArchiveKind,
    bounds: ClickHouseBounds,
    last_archive: Option<&str>,
) -> (r: bool)
    ensures
        r == can_plan(*config, kind, bounds, opt_str(last_archive)),
{
    if kind.slot_count() == 0 {
        return false;
    }
    if bounds.earliest_slot > bounds.latest_slot {
        return true;
    }
    if config.continue_from_last_archive {
        if let Some(name) = last_archive {
            match parse_archive_name(name) {
                None => {
                    return true;
                },
                Some(parsed) => {
                    if !text::text_eq(parsed.kind_label.as_str(), kind.label()) || parsed.end_slot
                        >= bounds.earliest_slot {
                        return true;
                    }
                },
            }
        }
    }
    match kind {
        ArchiveKind::Epoch => {
            let first: u64 = bounds.earliest_slot;
            first % EPOCH_SLOTS == 0 || (first / EPOCH_SLOTS + 1).checked_mul(EPOCH_SLOTS).is_some()
        },
        ArchiveKind::Hourly | ArchiveKind::Custom { .. } => true,
    }
}

/// Decides on the latest archive.
pub fn after_latest(
    config: &Config,
    kind: ArchiveKind,
    destination: String,
    bounds: ClickHouseBounds,
    last_archive: Option<&str>,
    timestamp_unix: u64,
) -> (r: Result<ArchiveStep, String>)
    requires
        can_plan(*config, kind, bounds, opt_str(last_archive)),
    ensures
        follows_latest(
            r,
            *config,
            kind,
            destination,
            bounds,
            opt_str(last_archive),
            timestamp_unix,
        ),
{
    match plan_next_archive(kind, bounds, last_archive, config.continue_from_last_archive) {
        Err(e) => Err(e),
        Ok(Some(plan)) => Ok(ArchiveStep::Validate { bounds, plan }),
        Ok(None) => {
            let mut report = ArchiveRunReport::skipped(
                kind,
                destination,
                "not enough ClickHouse slots available for the next archive".to_owned(),
                timestamp_unix,
            );
            report.db_bounds = Some(bounds);
            Ok(ArchiveStep::Finished(report))
        },
    }
}

/// Whether this step follows on what the check of the slots found. Warnings stop a server and make
/// others ask, unless archiving is forced.
pub open spec fn follows_validation(
    r: ArchiveStep,
    config: Config,
    kind: ArchiveKind,
    destination: String,
    bounds: ClickHouseBounds,
    plan: ArchivePlan,
    validation: ValidationReport,
    timestamp_unix: u64,
) -> bool {
    if !validation.has_warnings || config.force_archive {
        r == (ArchiveStep::Create { bounds, plan, validation })
    } else if config.server_mode {
        r matches ArchiveStep::Finished(report) && is_skip(
            report,
            kind,
            destination,
            "validation warnings require --force-archive in server mode"@,
            timestamp_unix,
            Some(bounds),
            Some(validation),
        )
    } else {
        r == (ArchiveStep::Confirm { bounds, plan, validation })
    }
}

/// Decides on what the check of the slots found.
pub fn after_validation(
    config: &Config,
    kind: ArchiveKind,
    destination: String,
    bounds: ClickHouseBounds,
    plan: ArchivePlan,
    validation: ValidationReport,
    timestamp_unix: u64,
) -> (r: ArchiveStep)
    ensures
        follows_validation(
            r,
            *config,
            kind,
            destination,
            bounds,
            plan,
            validation,
            timestamp_unix,
        ),
{
    if !validation.has_warnings || config.force_archive {
        return ArchiveStep::Create { bounds, plan, validation };
    }
    if config.server_mode {
        let mut report = ArchiveRunReport::skipped(
            kind,
            destination,
            "validation warnings require --force-archive in server mode".to_owned(),
            timestamp_unix,
        );
        report.db_bounds = Some(bounds);
        report.validation = Some(validation);
        return ArchiveStep::Finished(report);
    }
    ArchiveStep::Confirm { bounds, plan, validation }
}

/// Whether this step follows on the answer to the question whether to make the archive.
pub open spec fn follows_confirmation(
    r: ArchiveStep,
    kind: ArchiveKind,
    destination: String,
    bounds: ClickHouseBounds,
    plan: ArchivePlan,
    validation: ValidationReport,
    confirmed: bool,
    timestamp_unix: u64,
) -> bool {
    if confirmed {
        r == (ArchiveStep::Create { bounds, plan, validation })
    } else {
        r matches ArchiveStep::Finished(report) && is_skip(
            report,
            kind,
            destination,
            "user declined archive after validation warnings"@,
            timestamp_unix,
            Some(bounds),
            Some(validation),
        )
    }
}

/// Decides on the answer to the question whether to make the archive.
pub fn after_confirmation(
    kind: ArchiveKind,
    destination: String,
    bounds: ClickHouseBounds,
    plan: ArchivePlan,
    validation: ValidationReport,
    confirmed: bool,
    timestamp_unix: u64,
) -> (r: ArchiveStep)
    ensures
        follows_confirmation(
            r,
            kind,
            destination,
            bounds,
            plan,
            validation,
            confirmed,
            timestamp_unix,
        ),
{
    if confirmed {
        return ArchiveStep::Create { bounds, plan, validation };
    }
    let mut report = ArchiveRunReport::skipped(
        kind,
        destination,
        "user declined archive after validation warnings".to_owned(),
        timestamp_unix,
    );
    report.db_bounds = Some(bounds);
    report.validation = Some(validation);
    ArchiveStep::Finished(report)
}

/// Whether an answer means that the archive is to be made.
pub fn confirms(answer: &str) -> (r: bool)
    ensures
        r == (text_search::lower(text_search::trim(answer@)) == text_search::lower("yes"@)),
{
    let trimmed = text_search::trim_text(answer);
    text_search::eq_ignore_case(trimmed.as_str(), "yes")
}

/// What is said before the question whether to make the archive.
pub open spec fn warning_text(plan: ArchivePlan, v: ValidationReport) -> Seq<char> {
    let error = match sharding::opt_text(v.rpc_check_error) {
        Some(e) => e,
        None => "none"@,
    };
    ("WARNING: validation found issues for "@ + plan.name() + " (missing_blocks="@ + text::dec(v.missing_blocks as nat) + ", transaction_mismatches="@ + text::dec(v.transaction_mismatches as nat) + ", rpc_check_error="@ + error + ")."@)
}

/// Writes what is said before the question whether to make the archive.
pub fn validation_warning(plan: &ArchivePlan, v: &ValidationReport) -> (r: String)
    ensures
        r@ == warning_text(*plan, *v),
{
    let error = match &v.rpc_check_error {
        Some(e) => e.as_str(),
        None => "none",
    };
    let mut m = "WARNING: validation found issues for ".to_owned();
    m.append(plan.file_name().as_str());
    m.append(" (missing_blocks=");
    m.append(text::dec_string(v.missing_blocks as u64).as_str());
    m.append(", transaction_mismatches=");
    m.append(text::dec_string(v.transaction_mismatches as u64).as_str());
    m.append(", rpc_check_error=");
    m.append(error);
    m.append(").");
    m
}

/// What follows once the archive is written.
pub open spec fn step_after_created(
    config: Config,
    kind: ArchiveKind,
    bounds: ClickHouseBounds,
    plan: ArchivePlan,
    validation: ValidationReport,
) -> ArchiveStep {
    if config.delete_archived_data_range && is_largest_kind(config.archive_kinds@, kind) {
        ArchiveStep::Delete { bounds, plan, validation }
    } else {
        ArchiveStep::Cleanup { bounds, plan, validation, deleted: false }
    }
}

/// Decides what follows once the archive is written.
pub fn after_created(
    config: &Config,
    kind: ArchiveKind,
    bounds: ClickHouseBounds,
    plan: ArchivePlan,
    validation: ValidationReport,
) -> (r: ArchiveStep)
    ensures
        r == step_after_created(*config, kind, bounds, plan, validation),
{
    if should_delete_archived_data_range(config, kind) {
        ArchiveStep::Delete { bounds, plan, validation }
    } else {
        ArchiveStep::Cleanup { bounds, plan, validation, deleted: false }
    }
}

/// Decides what follows once the archived slots are deleted.
pub fn after_deleted(bounds: ClickHouseBounds, plan: ArchivePlan, validation: ValidationReport) -> (r:
    ArchiveStep)
    ensures
        r == (ArchiveStep::Cleanup { bounds, plan, validation, deleted: true }),
{
    ArchiveStep::Cleanup { bounds, plan, validation, deleted: true }
}

/// Whether a report is that on an archive that was made.
pub open spec fn is_success(
    report: ArchiveRunReport,
    kind: ArchiveKind,
    destination: String,
    bounds: ClickHouseBounds,
    plan: ArchivePlan,
    validation: ValidationReport,
    deleted: bool,
    cleaned_archives: Vec<String>,
    timestamp_unix: u64,
) -> bool {
    &&& report.timestamp_unix == timestamp_unix
    &&& report.archive_created
    &&& report.archive_skipped_reason is None
    &&& sharding::opt_text(report.archive_name) == Some(plan.name())
    &&& report.archive_kind == kind
    &&& report.archive_epoch == Some(plan.epoch)
    &&& report.archive_slot_start == Some(plan.start_slot)
    &&& report.archive_slot_end == Some(plan.end_slot)
    &&& report.db_bounds == Some(bounds)
    &&& report.destination == destination
    &&& report.validation == Some(validation)
    &&& report.deleted_clickhouse_range == deleted
    &&& report.cleaned_archives == cleaned_archives
}

/// Reports on the archive that was made.
pub fn after_cleanup(
    kind: ArchiveKind,
    destination: String,
    bounds: ClickHouseBounds,
    plan: ArchivePlan,
    validation: ValidationReport,
    deleted: bool,
    cleaned_archives: Vec<String>,
    timestamp_unix: u64,
) -> (r: ArchiveRunReport)
    ensures
        is_success(
            r,
            kind,
            destination,
            bounds,
            plan,
            validation,
            deleted,
            cleaned_archives,
            timestamp_unix,
        ),
{
    ArchiveRunReport {
        timestamp_unix,
        archive_created: true,
        archive_skipped_reason: None,
        archive_name: Some(plan.file_name()),
        archive_kind: kind,
        archive_epoch: Some(plan.epoch),
        archive_slot_start: Some(plan.start_slot),
        archive_slot_end: Some(plan.end_slot),
        db_bounds: Some(bounds),
        destination,
        validation: Some(validation),
        deleted_clickhouse_range: deleted,
        cleaned_archives,
    }
}

/// What came of a step.
#[derive(Debug)]
pub enum ArchiveReply {
    /// The slots that the database holds, if it holds any.
    Bounds(Option<ClickHouseBounds>),
    /// The name of the latest archive, if there is one.
    Latest(Option<String>),
    /// What the check of the slots found.
    Validated(ValidationReport),
    /// The answer to the question whether to make the archive.
    Confirmed(bool),
    /// The archive is written.
    Created,
    /// The archived slots are deleted.
    Deleted,
    /// The archives that were removed.
    Cleaned(Vec<String>),
}

/// Whether a reply is one to the step.
pub open spec fn replies_to(step: ArchiveStep, reply: ArchiveReply) -> bool {
    match step {
        ArchiveStep::ReadBounds => reply is Bounds,
        ArchiveStep::LoadLatest { .. } => reply is Latest,
        ArchiveStep::Validate { .. } => reply is Validated,
        ArchiveStep::Confirm { .. } => reply is Confirmed,
        ArchiveStep::Create { .. } => reply is Created,
        ArchiveStep::Delete { .. } => reply is Deleted,
        ArchiveStep::Cleanup { .. } => reply is Cleaned,
        ArchiveStep::Finished(_) => false,
    }
}

/// Whether this is what follows a step of a run and what came of it.
pub open spec fn follows(
    r: Result<ArchiveStep, String>,
    config: Config,
    kind: ArchiveKind,
    destination: String,
    step: ArchiveStep,
    reply: ArchiveReply,
    timestamp_unix: u64,
) -> bool {
    match (step, reply) {
        (ArchiveStep::ReadBounds, ArchiveReply::Bounds(bounds)) => r matches Ok(next)
            && follows_bounds(next, kind, destination, bounds, timestamp_unix),
        (ArchiveStep::LoadLatest { bounds }, ArchiveReply::Latest(latest)) => follows_latest(
            r,
            config,
            kind,
            destination,
            bounds,
            sharding::opt_text(latest),
            timestamp_unix,
        ),
        (ArchiveStep::Validate { bounds, plan }, ArchiveReply::Validated(validation)) => r
            matches Ok(next) && follows_validation(
            next,
            config,
            kind,
            destination,
            bounds,
            plan,
            validation,
            timestamp_unix,
        ),
        (
            ArchiveStep::Confirm { bounds, plan, validation },
            ArchiveReply::Confirmed(confirmed),
        ) => r matches Ok(next) && follows_confirmation(
            next,
            kind,
            destination,
            bounds,
            plan,
            validation,
            confirmed,
            timestamp_unix,
        ),
        (ArchiveStep::Create { bounds, plan, validation }, ArchiveReply::Created) => r == Ok::<
            ArchiveStep,
            String,
        >(step_after_created(config, kind, bounds, plan, validation)),
        (ArchiveStep::Delete { bounds, plan, validation }, ArchiveReply::Deleted) => r == Ok::<
            ArchiveStep,
            String,
        >(ArchiveStep::Cleanup { bounds, plan, validation, deleted: true }),
        (
            ArchiveStep::Cleanup { bounds, plan, validation, deleted },
            ArchiveReply::Cleaned(cleaned),
        ) => r matches Ok(ArchiveStep::Finished(report)) && is_success(
            report,
            kind,
            destination,
            bounds,
            plan,
            validation,
            deleted,
            cleaned,
            timestamp_unix,
        ),
        _ => false,
    }
}

impl ArchiveStep {
    /// Decides what follows a step of a run of one kind of archive.
    pub fn advance(
        self,
        config: &Config,
        kind: ArchiveKind,
        destination: String,
        reply: ArchiveReply,
        timestamp_unix: u64,
    ) -> (r: Result<ArchiveStep, String>)
        requires
            replies_to(self, reply),
            self matches ArchiveStep::LoadLatest { bounds } ==> (reply matches ArchiveReply::Latest(
                latest,
            ) && can_plan(*config, kind, bounds, sharding::opt_text(latest))),
        ensures
            follows(r, *config, kind, destination, self, reply, timestamp_unix),
    {
        match (self, reply) {
            (ArchiveStep::ReadBounds, ArchiveReply::Bounds(bounds)) => Ok(
                after_bounds(kind, destination, bounds, timestamp_unix),
            ),
            (ArchiveStep::LoadLatest { bounds }, ArchiveReply::Latest(latest)) => {
                let name = match &latest {
                    Some(name) => Some(name.as_str()),
                    None => None,
                };
                after_latest(config, kind, destination, bounds, name, timestamp_unix)
            },
            (ArchiveStep::Validate { bounds, plan }, ArchiveReply::Validated(validation)) => Ok(
                after_validation(
                    config,
                    kind,
                    destination,
                    bounds,
                    plan,
                    validation,
                    timestamp_unix,
                ),
            ),
            (
                ArchiveStep::Confirm { bounds, plan, validation },
                ArchiveReply::Confirmed(confirmed),
            ) => Ok(
                after_confirmation(
                    kind,
                    destination,
                    bounds,
                    plan,
                    validation,
                    confirmed,
                    timestamp_unix,
                ),
            ),
            (ArchiveStep::Create { bounds, plan, validation }, ArchiveReply::Created) => Ok(
                after_created(config, kind, bounds, plan, validation),
            ),
            (ArchiveStep::Delete { bounds, plan, validation }, ArchiveReply::Deleted) => Ok(
                after_deleted(bounds, plan, validation),
            ),
            (
                ArchiveStep::Cleanup { bounds, plan, validation, deleted },
                ArchiveReply::Cleaned(cleaned),
            ) => Ok(
                ArchiveStep::Finished(
                    after_cleanup(
                        kind,
                        destination,
                        bounds,
                        plan,
                        validation,
                        deleted,
                        cleaned,
                        timestamp_unix,
                    ),
                ),
            ),
            (step, _) => Ok(step),
        }
    }

    /// How far a run has come.
    pub open spec fn progress(self) -> nat {
        match self {
            ArchiveStep::ReadBounds => 0,
            ArchiveStep::LoadLatest { .. } => 1,
            ArchiveStep::Validate { .. } => 2,
            ArchiveStep::Confirm { .. } => 3,
            ArchiveStep::Create { .. } => 4,
            ArchiveStep::Delete { .. } => 5,
            ArchiveStep::Cleanup { .. } => 6,
            ArchiveStep::Finished(_) => 7,
        }
    }
}

/// Every step of a run brings it nearer to its end.
pub proof fn law_archive_runs_end(
    r: Result<ArchiveStep, String>,
    config: Config,
    kind: ArchiveKind,
    destination: String,
    step: ArchiveStep,
    reply: ArchiveReply,
    timestamp_unix: u64,
)
    requires
        follows(r, config, kind, destination, step, reply, timestamp_unix),
    ensures
        r matches Ok(next) ==> step.progress() < next.progress(),
{
}

/// Slots are deleted only once the archive that holds them is written, and only for the largest
/// kind. An archive with warnings is written only where that is forced or confirmed. A run reports
/// an archive exactly when it wrote one, and a deletion exactly when it deleted.
pub proof fn law_deletion_follows_the_archive(
    r: Result<ArchiveStep, String>,
    config: Config,
    kind: ArchiveKind,
    destination: String,
    step: ArchiveStep,
    reply: ArchiveReply,
    timestamp_unix: u64,
)
    requires
        follows(r, config, kind, destination, step, reply, timestamp_unix),
    ensures
        r matches Ok(ArchiveStep::Delete { plan, .. }) ==> {
            &&& step matches ArchiveStep::Create { plan: written, .. }
            &&& written == plan
            &&& config.delete_archived_data_range
            &&& is_largest_kind(config.archive_kinds@, kind)
        },
        r matches Ok(ArchiveStep::Cleanup { plan, deleted, .. }) ==> if deleted {
            step matches ArchiveStep::Delete { plan: written, .. } && written == plan
        } else {
            step matches ArchiveStep::Create { plan: written, .. } && written == plan
        },
        r matches Ok(ArchiveStep::Create { validation, .. }) ==> !validation.has_warnings
            || config.force_archive || reply == ArchiveReply::Confirmed(true),
        r matches Ok(ArchiveStep::Finished(report)) ==> {
            &&& report.archive_created <==> step is Cleanup
            &&& report.deleted_clickhouse_range <==> (step matches ArchiveStep::Cleanup {
                deleted,
                ..
            } && deleted)
        },
{
}

/// The kind of archive of a single run: the first that is configured.
pub fn single_run_kind(config: &Config) -> (r: ArchiveKind)
    requires
        config.archive_kinds@.len() > 0,
    ensures
        r == config.archive_kinds@[0],
{
    config.archive_kinds[0]
}

/// How much is logged.
pub fn log_level(verbose: u8) -> (r: &'static str)
    ensures
        r@ == (if verbose == 0 {
            "info"@
        } else if verbose == 1 {
            "debug"@
        } else {
            "trace"@
        }),
{
    if verbose == 0 {
        "info"
    } else if verbose == 1 {
        "debug"
    } else {
        "trace"
    }
}

/// An hour has nine thousand slots and an epoch four hundred and thirty-two thousand; another archive has
/// as many as are asked for.
pub proof fn law_archives_have_the_slots_of_their_kind(slots: u64)
    ensures
        ArchiveKind::Hourly.slots_per_archive() == 9_000,
        ArchiveKind::Epoch.slots_per_archive() == 432_000,
        (ArchiveKind::Custom { slots }).slots_per_archive() == slots,
        ArchiveKind::Epoch.slots_per_archive() == 48 * ArchiveKind::Hourly.slots_per_archive(),
{
}

/// The first archive is planned as soon as all its slots are there: it starts at the earliest slot, or at
/// the first epoch that is there from its first slot on.
pub proof fn law_first_archive_is_planned_when_its_slots_are_there(
    kind: ArchiveKind,
    bounds: ClickHouseBounds,
    continue_from_last_archive: bool,
)
    requires
        kind.slots_per_archive() > 0,
        bounds.earliest_slot <= bounds.latest_slot,
        bounds.latest_slot + kind.slots_per_archive() + 432_000 <= u64::MAX,
    ensures
        ({
            let start = kind.first_start(bounds.earliest_slot);
            let planned = next_plan(kind, bounds, None, continue_from_last_archive);
            &&& kind is Epoch ==> start % 432_000 == 0 && bounds.earliest_slot <= start
                < bounds.earliest_slot + 432_000
            &&& !(kind is Epoch) ==> start == bounds.earliest_slot
            &&& planned is Ok
            &&& planned->Ok_0 is Some <==> start + kind.slots_per_archive() - 1 <= bounds.latest_slot
            &&& planned->Ok_0 matches Some(plan) ==> plan.start_slot == start && plan.end_slot == start
                + kind.slots_per_archive() - 1
        }),
{
    let e = bounds.earliest_slot as int;
    law_aligned_up_is_least_multiple(e, 432_000, e / 432_000 + 1);
    law_aligned_up_is_least_multiple(e, 432_000, e);
    if e % 432_000 == 0 {
        assert(e == e / 432_000 * 432_000);
        law_aligned_up_is_least_multiple(e, 432_000, e / 432_000);
    }
}

/// An archive whose slots gave warnings is made only where that is forced or confirmed. A server never
/// asks.
pub proof fn law_warnings_need_consent(
    r: Result<ArchiveStep, String>,
    config: Config,
    kind: ArchiveKind,
    destination: String,
    step: ArchiveStep,
    reply: ArchiveReply,
    timestamp_unix: u64,
)
    requires
        follows(r, config, kind, destination, step, reply, timestamp_unix),
    ensures
        r matches Ok(ArchiveStep::Create { validation, .. }) ==> {
            ||| !validation.has_warnings
            ||| config.force_archive
            ||| reply == ArchiveReply::Confirmed(true)
        },
        r matches Ok(ArchiveStep::Confirm { validation, .. }) ==> !config.server_mode
            && validation.has_warnings && !config.force_archive,
        step is Validate && (!reply->Validated_0.has_warnings || config.force_archive) ==> (r matches Ok(
            next,
        ) && next is Create),
        step is Confirm && reply == ArchiveReply::Confirmed(false) ==> (r matches Ok(
            ArchiveStep::Finished(report),
        ) && !report.archive_created),
        r matches Ok(ArchiveStep::Finished(report)) ==> (report.archive_created <==> step is Cleanup),
{
}

/// A report says when it was made, whether there is an archive, where it went, and, where it holds them,
/// why there is none, its name and its slots.
pub proof fn law_report_says_the_outcome(report: ArchiveRunReport)
    ensures
        ({
            let lines = report.lines();
            &&& lines.contains("timestamp_unix: "@ + text::dec(report.timestamp_unix as nat))
            &&& lines.contains("archive_created: "@ + if report.archive_created {
                "true"@
            } else {
                "false"@
            })
            &&& lines.contains("destination: "@ + report.destination@)
            &&& lines.contains("deleted_clickhouse_range: "@ + if report.deleted_clickhouse_range {
                "true"@
            } else {
                "false"@
            })
            &&& report.archive_skipped_reason matches Some(v) ==> lines.contains(
                "archive_skipped_reason: "@ + v@,
            )
            &&& report.archive_name matches Some(v) ==> lines.contains("archive_name: "@ + v@)
            &&& report.archive_epoch matches Some(v) ==> lines.contains(
                "archive_epoch: "@ + text::dec(v as nat),
            )
            &&& report.archive_slot_start matches Some(v) ==> lines.contains(
                "archive_slot_start: "@ + text::dec(v as nat),
            )
            &&& report.archive_slot_end matches Some(v) ==> lines.contains(
                "archive_slot_end: "@ + text::dec(v as nat),
            )
            &&& report.db_bounds matches Some(b) ==> {
                &&& lines.contains("db_earliest_slot: "@ + text::dec(b.earliest_slot as nat))
                &&& lines.contains("db_latest_slot: "@ + text::dec(b.latest_slot as nat))
            }
        }),
{
    let made = "archive_created: "@ + bool_text(report.archive_created);
    let deleted = "deleted_clickhouse_range: "@ + bool_text(report.deleted_clickhouse_range);
    let head = report.head_lines();
    let slots = report.slot_lines();
    let tail = report.tail_lines();
    let reason = opt_text_line("archive_skipped_reason: "@, report.archive_skipped_reason);
    let name = opt_text_line("archive_name: "@, report.archive_name);
    let epoch = opt_number_line("archive_epoch: "@, report.archive_epoch);
    let first = opt_number_line("archive_slot_start: "@, report.archive_slot_start);
    let last = opt_number_line("archive_slot_end: "@, report.archive_slot_end);
    assert(head[1] == made && tail[1] == deleted);
    lemma_line_of_report(report, head[0]);
    lemma_line_of_report(report, head[1]);
    lemma_line_of_report(report, tail[0]);
    lemma_line_of_report(report, tail[1]);
    if report.archive_skipped_reason is Some {
        assert(head[2] == reason[0]);
        lemma_line_of_report(report, head[2]);
    }
    if report.archive_name is Some {
        let k: int = 2 + reason.len() as int;
        assert(head[k] == name[0]);
        lemma_line_of_report(report, head[k]);
    }
    if report.archive_epoch is Some {
        assert(slots[0] == epoch[0]);
        lemma_line_of_report(report, slots[0]);
    }
    if report.archive_slot_start is Some {
        let k: int = epoch.len() as int;
        assert(slots[k] == first[0]);
        lemma_line_of_report(report, slots[k]);
    }
    if report.archive_slot_end is Some {
        let k: int = epoch.len() as int + first.len();
        assert(slots[k] == last[0]);
        lemma_line_of_report(report, slots[k]);
    }
    if let Some(b) = report.db_bounds {
        let bounds = report.bounds_lines();
        assert(bounds[0] == "db_earliest_slot: "@ + text::dec(b.earliest_slot as nat));
        assert(bounds[1] == "db_latest_slot: "@ + text::dec(b.latest_slot as nat));
        lemma_line_of_report(report, bounds[0]);
        lemma_line_of_report(report, bounds[1]);
    }
}

/// A line of a part of a report is a line of the report.
proof fn lemma_line_of_report(report: ArchiveRunReport, line: Seq<char>)
    requires
        report.head_lines().contains(line) || report.slot_lines().contains(line)
            || report.bounds_lines().contains(line) || report.tail_lines().contains(line),
    ensures
        report.lines().contains(line),
{
    let head = report.head_lines();
    let slots = report.slot_lines();
    let bounds = report.bounds_lines();
    let tail = report.tail_lines();
    let checks = match report.validation {
        Some(v) => validation_lines(v),
        None => Seq::empty(),
    };
    lemma_line_of_either(head, slots, line);
    lemma_line_of_either(head + slots, bounds, line);
    lemma_line_of_either(head + slots + bounds, tail, line);
    lemma_line_of_either(head + slots + bounds + tail, checks, line);
}

proof fn lemma_line_of_either(a: Seq<Seq<char>>, b: Seq<Seq<char>>, line: Seq<char>)
    ensures
        a.contains(line) || b.contains(line) ==> (a + b).contains(line),
{
    if a.contains(line) {
        assert((a + b)[a.index_of(line)] == line);
    }
    if b.contains(line) {
        assert((a + b)[a.len() + b.index_of(line)] == line);
    }
}

/// The report of a local archive stands beside it, under its name with a dot before it and
/// `.report.txt` behind it.
pub proof fn law_report_stands_beside_the_archive(directory: Seq<char>, archive_name: Seq<char>)
    ensures
        ({
            let path = report_path(directory, archive_name);
            let name = "."@ + archive_name + ".report.txt"@;
            &&& text_search::ends_with(path, name)
            &&& directory.len() > 0 ==> text_search::starts_with(path, directory) && path[path.len()
                - name.len() - 1] == '/'
            &&& directory.len() == 0 ==> path == name
            &&& path.len() <= directory.len() + 1 + name.len()
        }),
{
    let name = "."@ + archive_name + ".report.txt"@;
    reveal_strlit("/");
    let front = if directory.len() == 0 || directory.last() == '/' {
        directory
    } else {
        directory + "/"@
    };
    let path = report_path(directory, archive_name);
    assert(path =~= front + name);
    text_search::law_parts_of_a_text_are_found(front, name, path);
    text_search::law_parts_of_a_text_are_found(directory, front.skip(directory.len() as int) + name, path);
    assert(path =~= directory + (front.skip(directory.len() as int) + name));
}

/// The slots that there are go from the earliest to the latest, both counted.
pub proof fn law_slots_are_counted_with_both_ends(bounds: ClickHouseBounds)
    requires
        bounds.earliest_slot <= bounds.latest_slot,
        bounds.latest_slot - bounds.earliest_slot < u64::MAX,
    ensures
        bounds.earliest_slot + bounds.available() == bounds.latest_slot + 1,
{
}

/// A kind is read whatever the case of its letters and the blanks around it. A custom one without a number
/// has a thousand slots, and none cannot be asked for.
pub proof fn law_kinds_are_read_in_any_case(value: Seq<char>)
    ensures
        ({
            let plain = text_search::lower(text_search::trim(value));
            &&& plain == "hourly"@ ==> parsed_kind(value) == Ok::<ArchiveKind, Seq<char>>(
                ArchiveKind::Hourly,
            )
            &&& plain == "epoch"@ ==> parsed_kind(value) == Ok::<ArchiveKind, Seq<char>>(
                ArchiveKind::Epoch,
            )
            &&& plain == "custom"@ ==> parsed_kind(value) == Ok::<ArchiveKind, Seq<char>>(
                ArchiveKind::Custom { slots: 1_000 },
            )
            &&& parsed_kind(value) matches Ok(ArchiveKind::Custom { slots }) ==> slots > 0
            &&& plain != "hourly"@ && plain != "epoch"@ && plain != "custom"@ && !text_search::starts_with(
                plain,
                "custom:"@,
            ) ==> parsed_kind(value) is Err
        }),
{
    reveal_strlit("hourly");
    reveal_strlit("epoch");
    reveal_strlit("custom");
    assert("hourly"@[0] == 'h' && "epoch"@[0] == 'e' && "custom"@[0] == 'c');
}

/// A run without slots, or without enough of them, ends without an archive and says so.
pub proof fn law_run_without_slots_says_so(
    r: Result<ArchiveStep, String>,
    config: Config,
    kind: ArchiveKind,
    destination: String,
    step: ArchiveStep,
    reply: ArchiveReply,
    timestamp_unix: u64,
)
    requires
        follows(r, config, kind, destination, step, reply, timestamp_unix),
    ensures
        reply == ArchiveReply::Bounds(None) ==> (r matches Ok(ArchiveStep::Finished(report)) && (
        report.archive_skipped_reason matches Some(reason) && reason@
            == "no transactions found in ClickHouse"@)),
        reply matches ArchiveReply::Bounds(Some(bounds)) ==> r == Ok::<ArchiveStep, String>(
            ArchiveStep::LoadLatest { bounds },
        ),
        step is LoadLatest ==> (r matches Ok(ArchiveStep::Finished(report)) ==> (
        report.archive_skipped_reason matches Some(reason) && reason@
            == "not enough ClickHouse slots available for the next archive"@)),
        r matches Ok(ArchiveStep::Finished(report)) ==> report.archive_kind == kind && report.destination
            == destination && report.timestamp_unix == timestamp_unix,
        step matches ArchiveStep::Cleanup { plan, deleted, .. } ==> (r matches Ok(
            ArchiveStep::Finished(report),
        ) && report.archive_slot_start == Some(plan.start_slot) && report.archive_slot_end == Some(
            plan.end_slot,
        ) && report.deleted_clickhouse_range == deleted),
{
}

/// Only a Parquet file is taken for an archive, and its kind is what its name begins with, up to the first
/// underscore.
pub proof fn law_archives_are_parquet_files(file_name: Seq<char>)
    ensures
        name_parts(file_name) matches Some(parts) ==> {
            &&& text_search::ends_with(file_name, ".parquet"@)
            &&& text_search::starts_with(file_name, parts.kind_label + seq!['_'])
            &&& forall|i: int| 0 <= i < parts.kind_label.len() ==> #[trigger] parts.kind_label[i] != '_'
            &&& parts.epoch <= u64::MAX
            &&& parts.start_slot <= u64::MAX
            &&& parts.end_slot <= u64::MAX
        },
{
    if let Some(parts) = name_parts(file_name) {
        let stem = file_name.take(file_name.len() - ".parquet"@.len());
        let p = text_search::first_position(stem, '_');
        text_search::lemma_first_position(stem, '_');
        assert(stem[p] == '_');
        assert(file_name.subrange(0, p + 1) =~= parts.kind_label + seq!['_']);
        assert forall|i: int| 0 <= i < parts.kind_label.len() implies #[trigger] parts.kind_label[i]
            != '_' by {
            assert(stem[i] == parts.kind_label[i]);
        }
    }
}

/// A report says what the check of the slots found.
pub proof fn law_report_says_what_the_check_found(v: ValidationReport)
    ensures
        ({
            let lines = validation_lines(v);
            &&& lines.contains("validation_missing_blocks: "@ + text::dec(v.missing_blocks as nat))
            &&& lines.contains("validation_missing_block_ranges: "@ + v.missing_block_ranges@)
            &&& lines.contains("validation_not_produced_slot_ranges: "@ + v.not_produced_slot_ranges@)
            &&& lines.contains(
                "validation_transaction_mismatches: "@ + text::dec(v.transaction_mismatches as nat),
            )
            &&& lines.contains(
                "validation_transaction_mismatch_ranges: "@ + v.transaction_mismatch_ranges@,
            )
            &&& v.rpc_check_error matches Some(e) ==> lines.contains("validation_rpc_check_error: "@ + e@)
        }),
{
    let lines = validation_lines(v);
    assert(lines[0] == "validation_missing_blocks: "@ + text::dec(v.missing_blocks as nat));
    assert(lines[1] == "validation_missing_block_ranges: "@ + v.missing_block_ranges@);
    assert(lines[2] == "validation_not_produced_slot_ranges: "@ + v.not_produced_slot_ranges@);
    assert(lines[3] == "validation_transaction_mismatches: "@ + text::dec(
        v.transaction_mismatches as nat,
    ));
    assert(lines[4] == "validation_transaction_mismatch_ranges: "@ + v.transaction_mismatch_ranges@);
    if let Some(e) = v.rpc_check_error {
        assert(lines[5] == "validation_rpc_check_error: "@ + e@);
    }
}

/// A kind is among the largest exactly where one of its size is configured and none that is larger.
pub proof fn law_largest_kind_has_no_larger(kinds: Seq<ArchiveKind>, kind: ArchiveKind, i: int)
    requires
        0 <= i < kinds.len(),
    ensures
        kinds[i].slots_per_archive() > kind.slots_per_archive() ==> !is_largest_kind(kinds, kind),
        kinds == seq![kind] ==> is_largest_kind(kinds, kind),
        is_largest_kind(kinds, ArchiveKind::Hourly) ==> !kinds.contains(ArchiveKind::Epoch),
{
    if kinds == seq![kind] {
        assert(kinds[0] == kind);
    }
    if kinds.contains(ArchiveKind::Epoch) {
        let k = kinds.index_of(ArchiveKind::Epoch);
        assert(kinds[k].slots_per_archive() == 432_000);
    }
}

} // verus!
