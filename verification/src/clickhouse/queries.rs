//! The queries for transactions: by address, by signature and by slot.
use vstd::prelude::*;

use crate::clickhouse::columns::TRANSACTION_SELECT_COLUMNS;
use crate::clickhouse::sharding;
use crate::clickhouse::slots::SLOT_SHARD_DIVISOR;
use crate::clickhouse::sql;
use crate::clickhouse::types::{
    NumericFilter, PaginationToken, ResolvedSignatureFilter, SignatureFilter, SignatureSlot,
    SlotBoundary, SortOrder, TokenAccountsFilter, TransactionStatusFilter,
    TransactionsForAddressQuery,
};
use crate::hashing;
use crate::processing::ProcessingError;
use crate::text;
use crate::text::Decimal;

verus! {

/// The tables that a query for the transactions of an address reads.
#[derive(Debug)]
pub struct TransactionsForAddressTables<'a> {
    pub gsfa_table: &'a str,
    pub gsfa_bucket_modulus: u64,
    pub token_owner_table: &'a str,
    pub token_owner_bucket_modulus: u64,
    pub signatures_table: &'a str,
    pub signature_bucket_modulus: u64,
}

/// How a position is compared.
#[derive(Clone, Copy, Debug, PartialEq, Eq, Structural)]
pub enum SlotIdxComparison {
    Lt,
    Lte,
    Gt,
    Gte,
}

impl SlotIdxComparison {
    /// The sign between slots.
    pub open spec fn slot_sign(self) -> Seq<char> {
        match self {
            SlotIdxComparison::Lt | SlotIdxComparison::Lte => " < "@,
            SlotIdxComparison::Gt | SlotIdxComparison::Gte => " > "@,
        }
    }

    /// The sign between places in a block.
    pub open spec fn idx_sign(self) -> Seq<char> {
        match self {
            SlotIdxComparison::Lt => " < "@,
            SlotIdxComparison::Lte => " <= "@,
            SlotIdxComparison::Gt => " > "@,
            SlotIdxComparison::Gte => " >= "@,
        }
    }

    fn slot_operator(self) -> (r: &'static str)
        ensures
            r@ == self.slot_sign(),
    {
        match self {
            SlotIdxComparison::Lt | SlotIdxComparison::Lte => " < ",
            SlotIdxComparison::Gt | SlotIdxComparison::Gte => " > ",
        }
    }

    fn idx_operator(self) -> (r: &'static str)
        ensures
            r@ == self.idx_sign(),
    {
        match self {
            SlotIdxComparison::Lt => " < ",
            SlotIdxComparison::Lte => " <= ",
            SlotIdxComparison::Gt => " > ",
            SlotIdxComparison::Gte => " >= ",
        }
    }
}

/// The condition that a bound sets, where there is one.
pub open spec fn bound<T: Decimal>(column: Seq<char>, sign: Seq<char>, value: Option<T>) -> Seq<Seq<char>> {
    match value {
        Some(v) => seq![column + sign + v.decimal()],
        None => Seq::empty(),
    }
}

/// The conditions that a filter sets on a column.
pub open spec fn numeric_conditions<T: Decimal>(column: Seq<char>, filter: NumericFilter<T>) -> Seq<Seq<char>> {
    bound(column, " = "@, filter.eq) + bound(column, " >= "@, filter.gte) + bound(
        column,
        " > "@,
        filter.gt,
    ) + bound(column, " <= "@, filter.lte) + bound(column, " < "@, filter.lt)
}

fn append_bound<T: Decimal>(column: &str, sign: &str, value: &Option<T>, conditions: &mut Vec<String>)
    ensures
        text::texts(final(conditions)@) == text::texts(old(conditions)@) + bound(
            column@,
            sign@,
            *value,
        ),
{
    if let Some(v) = value {
        let mut condition = column.to_owned();
        condition.append(sign);
        condition.append(v.to_decimal().as_str());
        text::push_text(conditions, condition);
        proof {
            assert(bound(column@, sign@, *value) =~= seq![column@ + sign@ + v.decimal()]);
        }
    }
    proof {
        assert(text::texts(conditions@) =~= text::texts(old(conditions)@) + bound(
            column@,
            sign@,
            *value,
        ));
    }
}

/// Appends the conditions that a filter sets on a column.
pub fn append_numeric_filter_conditions<T: Decimal>(
    column: &str,
    filter: &NumericFilter<T>,
    conditions: &mut Vec<String>,
)
    ensures
        text::texts(final(conditions)@) == text::texts(old(conditions)@) + numeric_conditions(
            column@,
            *filter,
        ),
{
    append_bound(column, " = ", &filter.eq, conditions);
    append_bound(column, " >= ", &filter.gte, conditions);
    append_bound(column, " > ", &filter.gt, conditions);
    append_bound(column, " <= ", &filter.lte, conditions);
    append_bound(column, " < ", &filter.lt, conditions);
    proof {
        assert(text::texts(conditions@) =~= text::texts(old(conditions)@) + numeric_conditions(
            column@,
            *filter,
        ));
    }
}

/// Appends the conditions that a filter sets on the slots of an address history. The slot is
/// compared as a computed value: bare bounds on the key lose rows of tables in reverse key order.
pub fn append_transactions_for_address_slot_filter_conditions(
    filter: &NumericFilter<u64>,
    conditions: &mut Vec<String>,
)
    ensures
        text::texts(final(conditions)@) == text::texts(old(conditions)@) + numeric_conditions(
            "slot + toUInt64(0)"@,
            *filter,
        ),
{
    append_numeric_filter_conditions("slot + toUInt64(0)", filter, conditions);
}

/// A position as expressions of a query.
#[derive(Debug)]
pub struct SignaturePositionExpr {
    pub slot_expr: String,
    pub idx_expr: String,
    pub nullable: bool,
    pub with_parts: Vec<String>,
}

/// The position that a page token states.
pub fn signature_position_for_token(slot: u64, idx: u32) -> (r: SignaturePositionExpr)
    ensures
        r.slot_expr@ == text::dec(slot as nat),
        r.idx_expr@ == text::dec(idx as nat),
        !r.nullable,
        r.with_parts@.len() == 0,
{
    SignaturePositionExpr {
        slot_expr: text::dec_string(slot),
        idx_expr: text::dec_string(idx as u64),
        nullable: false,
        with_parts: Vec::new(),
    }
}

/// The definitions that look up the position of a signature.
pub open spec fn signature_with_parts(
    signatures_table: Seq<char>,
    signature_bucket: u64,
    signature_bytes: Seq<u8>,
    prefix: Seq<char>,
) -> Seq<Seq<char>> {
    seq![
        ("toFixedString(unhex('"@ + text::hex_upper(signature_bytes) + "'), 64) AS "@ + prefix + "_sig"@),
        (text::dec(signature_bucket as nat) + " AS "@ + prefix + "_bucket"@),
        ("(SELECT CAST(slot AS Nullable(UInt64)) FROM "@ + signatures_table + " PREWHERE sig_bucket = "@ + prefix + "_bucket AND signature = "@ + prefix + "_sig ORDER BY slot DESC, slot_idx DESC LIMIT 1) AS "@ + prefix + "_slot"@),
        ("(SELECT CAST(slot_idx AS Nullable(UInt32)) FROM "@ + signatures_table + " PREWHERE sig_bucket = "@ + prefix + "_bucket AND signature = "@ + prefix + "_sig ORDER BY slot DESC, slot_idx DESC LIMIT 1) AS "@ + prefix + "_idx"@),
    ]
}

/// The position of a signature whose bucket is known, as expressions of a query.
pub fn signature_position_in_bucket(
    signatures_table: &str,
    signature_bucket: u64,
    signature_bytes: &[u8],
    prefix: &str,
) -> (r: SignaturePositionExpr)
    ensures
        r.slot_expr@ == prefix@ + "_slot"@,
        r.idx_expr@ == prefix@ + "_idx"@,
        r.nullable,
        text::texts(r.with_parts@) == signature_with_parts(
            signatures_table@,
            signature_bucket,
            signature_bytes@,
            prefix@,
        ),
{
    let part_sig = {
        let mut m = "toFixedString(unhex('".to_owned();
        m.append(text::hex_upper_string(signature_bytes).as_str());
        m.append("'), 64) AS ");
        m.append(prefix);
        m.append("_sig");
        m
    };
    let part_bucket = {
        let mut m = text::dec_string(signature_bucket).as_str().to_owned();
        m.append(" AS ");
        m.append(prefix);
        m.append("_bucket");
        m
    };
    let part_slot = {
        let mut m = "(SELECT CAST(slot AS Nullable(UInt64)) FROM ".to_owned();
        m.append(signatures_table);
        m.append(" PREWHERE sig_bucket = ");
        m.append(prefix);
        m.append("_bucket AND signature = ");
        m.append(prefix);
        m.append("_sig ORDER BY slot DESC, slot_idx DESC LIMIT 1) AS ");
        m.append(prefix);
        m.append("_slot");
        m
    };
    let part_idx = {
        let mut m = "(SELECT CAST(slot_idx AS Nullable(UInt32)) FROM ".to_owned();
        m.append(signatures_table);
        m.append(" PREWHERE sig_bucket = ");
        m.append(prefix);
        m.append("_bucket AND signature = ");
        m.append(prefix);
        m.append("_sig ORDER BY slot DESC, slot_idx DESC LIMIT 1) AS ");
        m.append(prefix);
        m.append("_idx");
        m
    };
    let with_parts: Vec<String> = vec![part_sig, part_bucket, part_slot, part_idx];
    proof {
        assert(text::texts(with_parts@) =~= signature_with_parts(
            signatures_table@,
            signature_bucket,
            signature_bytes@,
            prefix@,
        ));
    }
    let mut slot_expr = prefix.to_owned();
    slot_expr.append("_slot");
    let mut idx_expr = prefix.to_owned();
    idx_expr.append("_idx");
    SignaturePositionExpr { slot_expr, idx_expr, nullable: true, with_parts }
}

/// What is wrong with the bytes of a signature.
pub open spec fn signature_bytes_error(decoded: Option<Seq<u8>>) -> Option<Seq<char>> {
    match decoded {
        None => Some("Invalid signature"@),
        Some(bytes) => if bytes.len() != 64 {
            Some(("Invalid signature length "@ + text::dec(bytes.len()) + " (expected 64 bytes)"@))
        } else {
            None
        },
    }
}

/// Checks the bytes of a signature: there are 64 of them.
pub fn check_signature_bytes(decoded: Option<Vec<u8>>) -> (r: Result<Vec<u8>, ProcessingError>)
    ensures
        match signature_bytes_error(hashing::opt_bytes(decoded)) {
            Some(message) => r matches Err(e) && e is Deserialization && e.context() == message,
            None => r matches Ok(bytes) && decoded == Some(bytes) && bytes@.len() == 64,
        },
{
    match decoded {
        None => Err(ProcessingError::deserialization_msg("Invalid signature".to_owned())),
        Some(bytes) => {
            if bytes.len() != 64 {
                let message = {
                    let mut m = "Invalid signature length ".to_owned();
                    m.append(text::dec_string(bytes.len() as u64).as_str());
                    m.append(" (expected 64 bytes)");
                    m
                };
                return Err(ProcessingError::deserialization_msg(message));
            }
            Ok(bytes)
        },
    }
}

/// The bucket of a signature.
pub open spec fn signature_bucket(bytes: Seq<u8>, modulus: u64) -> u64 {
    (hashing::cityhash(bytes) as int % modulus as int) as u64
}

/// The position of a signature, as expressions of a query.
pub fn signature_position_for_signature(
    signatures_table: &str,
    signature_bucket_modulus: u64,
    signature: &str,
    prefix: &str,
) -> (r: Result<SignaturePositionExpr, ProcessingError>)
    requires
        signature_bucket_modulus > 0,
    ensures
        ({
            let decoded = hashing::base58_decoded(signature@);
            match signature_bytes_error(decoded) {
                Some(message) => r matches Err(e) && e is Deserialization && e.context() == message,
                None => {
                    &&& r matches Ok(expr)
                    &&& expr.slot_expr@ == prefix@ + "_slot"@
                    &&& expr.idx_expr@ == prefix@ + "_idx"@
                    &&& expr.nullable
                    &&& text::texts(expr.with_parts@) == signature_with_parts(
                        signatures_table@,
                        signature_bucket(decoded->0, signature_bucket_modulus),
                        decoded->0,
                        prefix@,
                    )
                },
            }
        }),
{
    let bytes = match check_signature_bytes(hashing::base58_decode(signature)) {
        Ok(bytes) => bytes,
        Err(e) => {
            return Err(e);
        },
    };
    let bucket: u64 = hashing::city_hash(&bytes) % signature_bucket_modulus;
    Ok(signature_position_in_bucket(signatures_table, bucket, &bytes, prefix))
}

/// The comparison of a row with a position, over computed values.
pub open spec fn position_condition(
    slot_expr: Seq<char>,
    idx_expr: Seq<char>,
    nullable: bool,
    comparison: SlotIdxComparison,
) -> Seq<char> {
    let condition = ("slot + toUInt64(0)"@ + comparison.slot_sign() + slot_expr + " OR (slot + toUInt64(0) = "@ + slot_expr + " AND slot_idx + toUInt32(0)"@ + comparison.idx_sign() + idx_expr + ")"@);
    if nullable {
        ("(isNull("@ + slot_expr + ") OR "@ + condition + ")"@)
    } else {
        ("("@ + condition + ")"@)
    }
}

/// Builds the comparison of a row with a position, over computed values.
pub fn slot_idx_condition(expr: &SignaturePositionExpr, comparison: SlotIdxComparison) -> (r: String)
    ensures
        r@ == position_condition(expr.slot_expr@, expr.idx_expr@, expr.nullable, comparison),
{
    let slot_expr = expr.slot_expr.as_str();
    let idx_expr = expr.idx_expr.as_str();
    let condition = {
        let mut m = "slot + toUInt64(0)".to_owned();
        m.append(comparison.slot_operator());
        m.append(slot_expr);
        m.append(" OR (slot + toUInt64(0) = ");
        m.append(slot_expr);
        m.append(" AND slot_idx + toUInt32(0)");
        m.append(comparison.idx_operator());
        m.append(idx_expr);
        m.append(")");
        m
    };
    if expr.nullable {
        let mut m = "(isNull(".to_owned();
        m.append(slot_expr);
        m.append(") OR ");
        m.append(condition.as_str());
        m.append(")");
        m
    } else {
        let mut m = "(".to_owned();
        m.append(condition.as_str());
        m.append(")");
        m
    }
}

/// The comparison of a row with a known position, over the columns themselves.
pub open spec fn raw_position_condition(position: SignatureSlot, comparison: SlotIdxComparison) -> Seq<char> {
    ("(slot"@ + comparison.slot_sign() + text::dec(position.slot as nat) + " OR (slot = "@ + text::dec(position.slot as nat) + " AND slot_idx"@ + comparison.idx_sign() + text::dec(position.slot_idx as nat) + "))"@)
}

/// Builds the comparison of a row with a known position, over the columns themselves.
pub fn slot_idx_condition_for_position(position: SignatureSlot, comparison: SlotIdxComparison) -> (r:
    String)
    ensures
        r@ == raw_position_condition(position, comparison),
{
    let mut m = "(slot".to_owned();
    m.append(comparison.slot_operator());
    m.append(text::dec_string(position.slot as u64).as_str());
    m.append(" OR (slot = ");
    m.append(text::dec_string(position.slot as u64).as_str());
    m.append(" AND slot_idx");
    m.append(comparison.idx_operator());
    m.append(text::dec_string(position.slot_idx as u64).as_str());
    m.append("))");
    m
}

/// The definitions and the conditions of a query, or what is wrong with its input.
pub type Clauses = Result<(Seq<Seq<char>>, Seq<Seq<char>>), Seq<char>>;

/// Clauses with those of one signature bound added, where there is one.
pub open spec fn add_signature(
    clauses: Clauses,
    table: Seq<char>,
    modulus: u64,
    signature: Option<Seq<char>>,
    prefix: Seq<char>,
    comparison: SlotIdxComparison,
) -> Clauses {
    match (clauses, signature) {
        (Ok((with_parts, conditions)), Some(sig)) => {
            let decoded = hashing::base58_decoded(sig);
            match signature_bytes_error(decoded) {
                Some(message) => Err(message),
                None => Ok(
                    (
                        with_parts + signature_with_parts(
                            table,
                            signature_bucket(decoded->0, modulus),
                            decoded->0,
                            prefix,
                        ),
                        conditions.push(
                            position_condition(
                                prefix + "_slot"@,
                                prefix + "_idx"@,
                                true,
                                comparison,
                            ),
                        ),
                    ),
                ),
            }
        },
        _ => clauses,
    }
}

fn append_signature(
    table: &str,
    modulus: u64,
    signature: &Option<String>,
    prefix: &str,
    comparison: SlotIdxComparison,
    with_parts: &mut Vec<String>,
    conditions: &mut Vec<String>,
) -> (r: Result<(), ProcessingError>)
    requires
        signature is Some ==> modulus > 0,
    ensures
        ({
            let before: Clauses = Ok(
                (text::texts(old(with_parts)@), text::texts(old(conditions)@)),
            );
            let after = add_signature(
                before,
                table@,
                modulus,
                sharding::opt_text(*signature),
                prefix@,
                comparison,
            );
            match r {
                Ok(()) => after == Ok::<(Seq<Seq<char>>, Seq<Seq<char>>), Seq<char>>(
                    (text::texts(final(with_parts)@), text::texts(final(conditions)@)),
                ),
                Err(e) => e is Deserialization && after == Err::<
                    (Seq<Seq<char>>, Seq<Seq<char>>),
                    Seq<char>,
                >(e.context()),
            }
        }),
{
    if let Some(sig) = signature {
        let expr = match signature_position_for_signature(table, modulus, sig.as_str(), prefix) {
            Ok(expr) => expr,
            Err(e) => {
                return Err(e);
            },
        };
        let condition = slot_idx_condition(&expr, comparison);
        text::append_texts(with_parts, expr.with_parts);
        text::push_text(conditions, condition);
    }
    Ok(())
}

/// Clauses with those of a signature filter added.
pub open spec fn add_signature_filter(
    clauses: Clauses,
    table: Seq<char>,
    modulus: u64,
    filter: SignatureFilter,
) -> Clauses {
    let c1 = add_signature(
        clauses,
        table,
        modulus,
        sharding::opt_text(filter.gte),
        "sig_gte"@,
        SlotIdxComparison::Gte,
    );
    let c2 = add_signature(
        c1,
        table,
        modulus,
        sharding::opt_text(filter.gt),
        "sig_gt"@,
        SlotIdxComparison::Gt,
    );
    let c3 = add_signature(
        c2,
        table,
        modulus,
        sharding::opt_text(filter.lte),
        "sig_lte"@,
        SlotIdxComparison::Lte,
    );
    add_signature(
        c3,
        table,
        modulus,
        sharding::opt_text(filter.lt),
        "sig_lt"@,
        SlotIdxComparison::Lt,
    )
}

/// Whether a filter has a signature in it.
pub open spec fn filter_has_signature(filter: SignatureFilter) -> bool {
    filter.gte is Some || filter.gt is Some || filter.lte is Some || filter.lt is Some
}

/// Appends the clauses of a signature filter.
pub fn apply_signature_filter(
    signatures_table: &str,
    signature_bucket_modulus: u64,
    filter: &SignatureFilter,
    with_parts: &mut Vec<String>,
    conditions: &mut Vec<String>,
) -> (r: Result<(), ProcessingError>)
    requires
        filter_has_signature(*filter) ==> signature_bucket_modulus > 0,
    ensures
        ({
            let before: Clauses = Ok(
                (text::texts(old(with_parts)@), text::texts(old(conditions)@)),
            );
            let after = add_signature_filter(
                before,
                signatures_table@,
                signature_bucket_modulus,
                *filter,
            );
            match r {
                Ok(()) => after == Ok::<(Seq<Seq<char>>, Seq<Seq<char>>), Seq<char>>(
                    (text::texts(final(with_parts)@), text::texts(final(conditions)@)),
                ),
                Err(e) => e is Deserialization && after == Err::<
                    (Seq<Seq<char>>, Seq<Seq<char>>),
                    Seq<char>,
                >(e.context()),
            }
        }),
{
    let table = signatures_table;
    let modulus: u64 = signature_bucket_modulus;
    if let Err(e) = append_signature(
        table,
        modulus,
        &filter.gte,
        "sig_gte",
        SlotIdxComparison::Gte,
        with_parts,
        conditions,
    ) {
        return Err(e);
    }
    if let Err(e) = append_signature(
        table,
        modulus,
        &filter.gt,
        "sig_gt",
        SlotIdxComparison::Gt,
        with_parts,
        conditions,
    ) {
        return Err(e);
    }
    if let Err(e) = append_signature(
        table,
        modulus,
        &filter.lte,
        "sig_lte",
        SlotIdxComparison::Lte,
        with_parts,
        conditions,
    ) {
        return Err(e);
    }
    append_signature(
        table,
        modulus,
        &filter.lt,
        "sig_lt",
        SlotIdxComparison::Lt,
        with_parts,
        conditions,
    )
}

/// What comes after a page token, in the order of the page.
pub open spec fn page_comparison(sort_order: SortOrder) -> SlotIdxComparison {
    match sort_order {
        SortOrder::Desc => SlotIdxComparison::Lt,
        SortOrder::Asc => SlotIdxComparison::Gt,
    }
}

fn page_comparison_for(sort_order: SortOrder) -> (r: SlotIdxComparison)
    ensures
        r == page_comparison(sort_order),
{
    match sort_order {
        SortOrder::Desc => SlotIdxComparison::Lt,
        SortOrder::Asc => SlotIdxComparison::Gt,
    }
}

/// Clauses with those of a page token added.
pub open spec fn add_pagination(
    clauses: Clauses,
    table: Seq<char>,
    modulus: u64,
    pagination: PaginationToken,
    sort_order: SortOrder,
) -> Clauses {
    match pagination {
        PaginationToken::SlotIndex { slot, idx } => match clauses {
            Ok((with_parts, conditions)) => Ok(
                (
                    with_parts,
                    conditions.push(
                        position_condition(
                            text::dec(slot as nat),
                            text::dec(idx as nat),
                            false,
                            page_comparison(sort_order),
                        ),
                    ),
                ),
            ),
            Err(message) => Err(message),
        },
        PaginationToken::Signature(sig) => add_signature(
            clauses,
            table,
            modulus,
            Some(sig@),
            "page"@,
            page_comparison(sort_order),
        ),
    }
}

/// Appends the clauses of a page token.
pub fn apply_pagination_token(
    signatures_table: &str,
    signature_bucket_modulus: u64,
    pagination: &PaginationToken,
    sort_order: SortOrder,
    with_parts: &mut Vec<String>,
    conditions: &mut Vec<String>,
) -> (r: Result<(), ProcessingError>)
    requires
        pagination is Signature ==> signature_bucket_modulus > 0,
    ensures
        ({
            let before: Clauses = Ok(
                (text::texts(old(with_parts)@), text::texts(old(conditions)@)),
            );
            let after = add_pagination(
                before,
                signatures_table@,
                signature_bucket_modulus,
                *pagination,
                sort_order,
            );
            match r {
                Ok(()) => after == Ok::<(Seq<Seq<char>>, Seq<Seq<char>>), Seq<char>>(
                    (text::texts(final(with_parts)@), text::texts(final(conditions)@)),
                ),
                Err(e) => e is Deserialization && after == Err::<
                    (Seq<Seq<char>>, Seq<Seq<char>>),
                    Seq<char>,
                >(e.context()),
            }
        }),
{
    let comparison = page_comparison_for(sort_order);
    let expr = match pagination {
        PaginationToken::SlotIndex { slot, idx } => signature_position_for_token(*slot, *idx),
        PaginationToken::Signature(sig) => match signature_position_for_signature(
            signatures_table,
            signature_bucket_modulus,
            sig.as_str(),
            "page",
        ) {
            Ok(expr) => expr,
            Err(e) => {
                return Err(e);
            },
        },
    };
    let condition = slot_idx_condition(&expr, comparison);
    proof {
        if expr.with_parts@.len() == 0 {
            assert(text::texts(with_parts@) + text::texts(expr.with_parts@) =~= text::texts(
                with_parts@,
            ));
        }
    }
    text::append_texts(with_parts, expr.with_parts);
    text::push_text(conditions, condition);
    Ok(())
}

/// The conditions, joined; without any, one that always holds.
pub open spec fn where_text(conditions: Seq<Seq<char>>) -> Seq<char> {
    if conditions.len() == 0 {
        "1"@
    } else {
        text::join(conditions, " AND "@)
    }
}

fn where_clause_of(conditions: &Vec<String>) -> (r: String)
    ensures
        r@ == where_text(text::texts(conditions@)),
{
    if conditions.len() == 0 {
        "1".to_owned()
    } else {
        text::join_texts(conditions, " AND ")
    }
}

/// The condition of a raw bound, where there is one.
pub open spec fn raw_bound(position: Option<SignatureSlot>, comparison: SlotIdxComparison) -> Seq<Seq<char>> {
    match position {
        Some(p) => seq![raw_position_condition(p, comparison)],
        None => Seq::empty(),
    }
}

/// The conditions of resolved signature bounds.
pub open spec fn resolved_conditions(filter: ResolvedSignatureFilter) -> Seq<Seq<char>> {
    raw_bound(filter.gte, SlotIdxComparison::Gte) + raw_bound(filter.gt, SlotIdxComparison::Gt)
        + raw_bound(filter.lte, SlotIdxComparison::Lte) + raw_bound(
        filter.lt,
        SlotIdxComparison::Lt,
    )
}

fn append_raw_bound(
    position: Option<SignatureSlot>,
    comparison: SlotIdxComparison,
    conditions: &mut Vec<String>,
)
    ensures
        text::texts(final(conditions)@) == text::texts(old(conditions)@) + raw_bound(
            position,
            comparison,
        ),
{
    if let Some(p) = position {
        let condition = slot_idx_condition_for_position(p, comparison);
        text::push_text(conditions, condition);
    }
    proof {
        assert(text::texts(conditions@) =~= text::texts(old(conditions)@) + raw_bound(
            position,
            comparison,
        ));
    }
}

/// Appends the conditions of resolved signature bounds.
pub fn apply_hot_resolved_signature_filter(
    filter: &ResolvedSignatureFilter,
    conditions: &mut Vec<String>,
)
    ensures
        text::texts(final(conditions)@) == text::texts(old(conditions)@) + resolved_conditions(
            *filter,
        ),
{
    append_raw_bound(filter.gte, SlotIdxComparison::Gte, conditions);
    append_raw_bound(filter.gt, SlotIdxComparison::Gt, conditions);
    append_raw_bound(filter.lte, SlotIdxComparison::Lte, conditions);
    append_raw_bound(filter.lt, SlotIdxComparison::Lt, conditions);
    proof {
        assert(text::texts(conditions@) =~= text::texts(old(conditions)@) + resolved_conditions(
            *filter,
        ));
    }
}

/// Appends the condition of a resolved page token.
pub fn apply_hot_resolved_pagination_token(
    pagination: SignatureSlot,
    sort_order: SortOrder,
    conditions: &mut Vec<String>,
)
    ensures
        text::texts(final(conditions)@) == text::texts(old(conditions)@).push(
            raw_position_condition(pagination, page_comparison(sort_order)),
        ),
{
    let condition = slot_idx_condition_for_position(pagination, page_comparison_for(sort_order));
    text::push_text(conditions, condition);
}

/// The condition of a bound of a page of history, over computed values or over the columns.
pub open spec fn boundary_condition(
    boundary: Option<SlotBoundary>,
    comparison: SlotIdxComparison,
    raw: bool,
) -> Seq<Seq<char>> {
    match boundary {
        None => Seq::empty(),
        Some(SlotBoundary::Slot(slot)) => seq![("slot"@ + comparison.slot_sign() + text::dec(slot as nat))],
        Some(SlotBoundary::Position(p)) => if raw {
            seq![raw_position_condition(p, comparison)]
        } else {
            seq![
                position_condition(
                    text::dec(p.slot as nat),
                    text::dec(p.slot_idx as nat),
                    false,
                    comparison,
                ),
            ]
        },
    }
}

fn append_boundary(
    boundary: Option<SlotBoundary>,
    comparison: SlotIdxComparison,
    raw: bool,
    conditions: &mut Vec<String>,
)
    ensures
        text::texts(final(conditions)@) == text::texts(old(conditions)@) + boundary_condition(
            boundary,
            comparison,
            raw,
        ),
{
    if let Some(b) = boundary {
        let condition = match b {
            SlotBoundary::Slot(slot) => {
                let mut m = "slot".to_owned();
                m.append(comparison.slot_operator());
                m.append(text::dec_string(slot as u64).as_str());
                m
            },
            SlotBoundary::Position(p) => if raw {
                slot_idx_condition_for_position(p, comparison)
            } else {
                slot_idx_condition(&signature_position_for_token(p.slot, p.slot_idx), comparison)
            },
        };
        text::push_text(conditions, condition);
    }
    proof {
        assert(text::texts(conditions@) =~= text::texts(old(conditions)@) + boundary_condition(
            boundary,
            comparison,
            raw,
        ));
    }
}

/// The condition of a page of history between two bounds, both left out.
pub open spec fn page_text(before: Option<SlotBoundary>, until: Option<SlotBoundary>, raw: bool) -> Seq<char> {
    where_text(
        boundary_condition(before, SlotIdxComparison::Lt, raw) + boundary_condition(
            until,
            SlotIdxComparison::Gt,
            raw,
        ),
    )
}

fn page_clause(before: Option<SlotBoundary>, until: Option<SlotBoundary>, raw: bool) -> (r: String)
    ensures
        r@ == page_text(before, until, raw),
{
    let mut conditions: Vec<String> = Vec::new();
    append_boundary(before, SlotIdxComparison::Lt, raw, &mut conditions);
    append_boundary(until, SlotIdxComparison::Gt, raw, &mut conditions);
    proof {
        assert(text::texts(conditions@) =~= boundary_condition(before, SlotIdxComparison::Lt, raw)
            + boundary_condition(until, SlotIdxComparison::Gt, raw));
    }
    where_clause_of(&conditions)
}

/// Builds the definitions (there are none) and the condition of a page of history. Positions are
/// compared as computed values: rewriting of bare bounds on tables in reverse key order can lose
/// the rows of the same slot.
pub fn build_pagination_clauses(before: Option<SlotBoundary>, until: Option<SlotBoundary>) -> (r: (
    String,
    String,
))
    ensures
        r.0@ == Seq::<char>::empty(),
        r.1@ == page_text(before, until, false),
{
    (String::new(), page_clause(before, until, false))
}

/// Builds the definitions (there are none) and the condition of a page of a hot history, over the
/// columns themselves.
pub fn build_hot_position_pagination_clauses(
    before: Option<SlotBoundary>,
    until: Option<SlotBoundary>,
) -> (r: (String, String))
    ensures
        r.0@ == Seq::<char>::empty(),
        r.1@ == page_text(before, until, true),
{
    (String::new(), page_clause(before, until, true))
}

/// The condition on the outcome of a transaction.
pub open spec fn status_conditions(status: TransactionStatusFilter) -> Seq<Seq<char>> {
    match status {
        TransactionStatusFilter::Succeeded => seq!["err IS NULL"@],
        TransactionStatusFilter::Failed => seq!["err IS NOT NULL"@],
        TransactionStatusFilter::Any => Seq::empty(),
    }
}

fn status_condition_texts(status: TransactionStatusFilter) -> (r: Vec<String>)
    ensures
        text::texts(r@) == status_conditions(status),
{
    let mut r: Vec<String> = Vec::new();
    match status {
        TransactionStatusFilter::Succeeded => text::push_text(&mut r, "err IS NULL".to_owned()),
        TransactionStatusFilter::Failed => text::push_text(&mut r, "err IS NOT NULL".to_owned()),
        TransactionStatusFilter::Any => (),
    }
    proof {
        assert(text::texts(r@) =~= status_conditions(status));
    }
    r
}

/// The conditions of an optional filter.
pub open spec fn opt_conditions<T: Decimal>(column: Seq<char>, filter: Option<NumericFilter<T>>) -> Seq<Seq<char>> {
    match filter {
        Some(f) => numeric_conditions(column, f),
        None => Seq::empty(),
    }
}

fn append_opt_filter<T: Decimal>(
    column: &str,
    filter: &Option<NumericFilter<T>>,
    conditions: &mut Vec<String>,
)
    ensures
        text::texts(final(conditions)@) == text::texts(old(conditions)@) + opt_conditions(
            column@,
            *filter,
        ),
{
    if let Some(f) = filter {
        append_numeric_filter_conditions(column, f, conditions);
    }
    proof {
        assert(text::texts(conditions@) =~= text::texts(old(conditions)@) + opt_conditions(
            column@,
            *filter,
        ));
    }
}

/// The clauses of a query for the transactions of an address.
pub open spec fn transactions_clauses(
    table: Seq<char>,
    modulus: u64,
    query: TransactionsForAddressQuery,
) -> Clauses {
    let start: Clauses = Ok(
        (
            Seq::empty(),
            status_conditions(query.status) + opt_conditions("slot + toUInt64(0)"@, query.slot_filter)
                + opt_conditions("block_time"@, query.block_time_filter),
        ),
    );
    let filtered = match query.signature_filter {
        Some(filter) => add_signature_filter(start, table, modulus, filter),
        None => start,
    };
    match query.pagination {
        Some(pagination) => add_pagination(
            filtered,
            table,
            modulus,
            pagination,
            query.sort_order,
        ),
        None => filtered,
    }
}

/// The SQL expression of an address.
pub open spec fn address_expression(address: Seq<char>) -> Seq<char> {
    ("CAST(base58Decode('"@ + address + "') AS FixedString(32))"@)
}

fn address_expression_text(address: &str) -> (r: String)
    ensures
        r@ == address_expression(address@),
{
    let mut m = "CAST(base58Decode('".to_owned();
    m.append(address);
    m.append("') AS FixedString(32))");
    m
}

/// The direction of an order.
pub open spec fn direction(sort_order: SortOrder) -> Seq<char> {
    match sort_order {
        SortOrder::Asc => "ASC"@,
        SortOrder::Desc => "DESC"@,
    }
}

fn direction_text(sort_order: SortOrder) -> (r: &'static str)
    ensures
        r@ == direction(sort_order),
{
    match sort_order {
        SortOrder::Asc => "ASC",
        SortOrder::Desc => "DESC",
    }
}

/// The rows of an address: its own history, and that of its token accounts where it is asked for.
pub open spec fn address_rows(
    gsfa_table: Seq<char>,
    gsfa_bucket_modulus: u64,
    token_owner_table: Seq<char>,
    token_owner_bucket_modulus: u64,
    address: Seq<char>,
    token_accounts: TokenAccountsFilter,
) -> Seq<char> {
    let literal = address_expression(address);
    let own = ("SELECT signature, slot, slot_idx, err, memo, block_time
         FROM "@ + gsfa_table + "
         PREWHERE addr_bucket = cityHash64("@ + literal + ") % "@ + text::dec(gsfa_bucket_modulus as nat) + " AND address = "@ + literal);
    match token_accounts {
        TokenAccountsFilter::Omitted => own,
        TokenAccountsFilter::BalanceChanged => own + ("
UNION ALL
SELECT signature, slot, slot_idx, err, memo, block_time
             FROM "@ + token_owner_table + "
             PREWHERE owner_bucket = cityHash64("@ + literal + ") % "@ + text::dec(token_owner_bucket_modulus as nat) + " AND owner = "@ + literal + " WHERE balance_changed = 1"@),
        TokenAccountsFilter::All => own + ("
UNION ALL
SELECT signature, slot, slot_idx, err, memo, block_time
             FROM "@ + token_owner_table + "
             PREWHERE owner_bucket = cityHash64("@ + literal + ") % "@ + text::dec(token_owner_bucket_modulus as nat) + " AND owner = "@ + literal),
    }
}

fn address_rows_text(tables: &TransactionsForAddressTables<'_>, query: &TransactionsForAddressQuery) -> (r:
    String)
    ensures
        r@ == address_rows(
            tables.gsfa_table@,
            tables.gsfa_bucket_modulus,
            tables.token_owner_table@,
            tables.token_owner_bucket_modulus,
            query.address@,
            query.token_accounts,
        ),
{
    let literal = address_expression_text(query.address.as_str());
    let mut rows = {
        let mut m = "SELECT signature, slot, slot_idx, err, memo, block_time
         FROM ".to_owned();
        m.append(tables.gsfa_table);
        m.append("
         PREWHERE addr_bucket = cityHash64(");
        m.append(literal.as_str());
        m.append(") % ");
        m.append(text::dec_string(tables.gsfa_bucket_modulus as u64).as_str());
        m.append(" AND address = ");
        m.append(literal.as_str());
        m
    };
    if query.token_accounts != TokenAccountsFilter::Omitted {
        let token_rows = if query.token_accounts == TokenAccountsFilter::BalanceChanged {
            let mut m = "
UNION ALL
SELECT signature, slot, slot_idx, err, memo, block_time
             FROM ".to_owned();
            m.append(tables.token_owner_table);
            m.append("
             PREWHERE owner_bucket = cityHash64(");
            m.append(literal.as_str());
            m.append(") % ");
            m.append(text::dec_string(tables.token_owner_bucket_modulus as u64).as_str());
            m.append(" AND owner = ");
            m.append(literal.as_str());
            m.append(" WHERE balance_changed = 1");
            m
        } else {
            let mut m = "
UNION ALL
SELECT signature, slot, slot_idx, err, memo, block_time
             FROM ".to_owned();
            m.append(tables.token_owner_table);
            m.append("
             PREWHERE owner_bucket = cityHash64(");
            m.append(literal.as_str());
            m.append(") % ");
            m.append(text::dec_string(tables.token_owner_bucket_modulus as u64).as_str());
            m.append(" AND owner = ");
            m.append(literal.as_str());
            m
        };
        rows.append(token_rows.as_str());
    }
    rows
}

/// The query for the transactions of an address, from its parts.
pub open spec fn transactions_query(
    with_parts: Seq<Seq<char>>,
    conditions: Seq<Seq<char>>,
    rows: Seq<char>,
    order_dir: Seq<char>,
    limit: u64,
    settings_clause: Seq<char>,
) -> Seq<char> {
    let with_clause = if with_parts.len() == 0 {
        Seq::<char>::empty()
    } else {
        ("WITH "@ + text::join(with_parts, ", "@) + " "@)
    };
    (with_clause + "SELECT
            base58Encode(signature) AS signature,
            slot,
            slot_idx,
            err,
            memo,
            block_time
         FROM (
            SELECT signature, slot, slot_idx, err, memo, block_time
            FROM (
                "@ + rows + "
            )
            WHERE "@ + where_text(conditions) + "
            ORDER BY slot "@ + order_dir + ", slot_idx "@ + order_dir + ", signature "@ + order_dir + "
            LIMIT 1 BY signature
         )
         ORDER BY slot "@ + order_dir + ", slot_idx "@ + order_dir + ", signature "@ + order_dir + "
         LIMIT "@ + text::dec(limit as nat) + "
         "@ + settings_clause)
}

/// Builds the query for the transactions of an address.
pub fn build_transactions_for_address_query(
    tables: &TransactionsForAddressTables<'_>,
    query: &TransactionsForAddressQuery,
    settings_clause: &str,
) -> (r: Result<String, ProcessingError>)
    requires
        query.signature_filter matches Some(filter) && filter_has_signature(filter)
            ==> tables.signature_bucket_modulus > 0,
        query.pagination matches Some(PaginationToken::Signature(_))
            ==> tables.signature_bucket_modulus > 0,
    ensures
        match transactions_clauses(
            tables.signatures_table@,
            tables.signature_bucket_modulus,
            *query,
        ) {
            Err(message) => r matches Err(e) && e is Deserialization && e.context() == message,
            Ok((with_parts, conditions)) => r matches Ok(q) && q@ == transactions_query(
                with_parts,
                conditions,
                address_rows(
                    tables.gsfa_table@,
                    tables.gsfa_bucket_modulus,
                    tables.token_owner_table@,
                    tables.token_owner_bucket_modulus,
                    query.address@,
                    query.token_accounts,
                ),
                direction(query.sort_order),
                query.limit,
                settings_clause@,
            ),
        },
{
    let mut with_parts: Vec<String> = Vec::new();
    let mut conditions: Vec<String> = status_condition_texts(query.status);
    let ghost by_status = text::texts(conditions@);
    if let Some(slot_filter) = &query.slot_filter {
        append_transactions_for_address_slot_filter_conditions(slot_filter, &mut conditions);
    }
    assert(text::texts(conditions@) =~= by_status + opt_conditions(
        "slot + toUInt64(0)"@,
        query.slot_filter,
    ));
    append_opt_filter("block_time", &query.block_time_filter, &mut conditions);
    proof {
        assert(text::texts(with_parts@) =~= Seq::<Seq<char>>::empty());
    }
    if let Some(signature_filter) = &query.signature_filter {
        if let Err(e) = apply_signature_filter(
            tables.signatures_table,
            tables.signature_bucket_modulus,
            signature_filter,
            &mut with_parts,
            &mut conditions,
        ) {
            proof {
                lemma_clauses_keep_errors(
                    tables.signatures_table@,
                    tables.signature_bucket_modulus,
                    *query,
                    e.context(),
                );
            }
            return Err(e);
        }
    }
    if let Some(pagination) = &query.pagination {
        if let Err(e) = apply_pagination_token(
            tables.signatures_table,
            tables.signature_bucket_modulus,
            pagination,
            query.sort_order,
            &mut with_parts,
            &mut conditions,
        ) {
            return Err(e);
        }
    }
    let with_clause = if with_parts.len() == 0 {
        String::new()
    } else {
        let mut m = "WITH ".to_owned();
        m.append(text::join_texts(&with_parts, ", ").as_str());
        m.append(" ");
        m
    };
    let where_clause = where_clause_of(&conditions);
    let rows = address_rows_text(tables, query);
    let order_dir = direction_text(query.sort_order);
    let mut m = with_clause.as_str().to_owned();
    m.append("SELECT
            base58Encode(signature) AS signature,
            slot,
            slot_idx,
            err,
            memo,
            block_time
         FROM (
            SELECT signature, slot, slot_idx, err, memo, block_time
            FROM (
                ");
    m.append(rows.as_str());
    m.append("
            )
            WHERE ");
    m.append(where_clause.as_str());
    m.append("
            ORDER BY slot ");
    m.append(order_dir);
    m.append(", slot_idx ");
    m.append(order_dir);
    m.append(", signature ");
    m.append(order_dir);
    m.append("
            LIMIT 1 BY signature
         )
         ORDER BY slot ");
    m.append(order_dir);
    m.append(", slot_idx ");
    m.append(order_dir);
    m.append(", signature ");
    m.append(order_dir);
    m.append("
         LIMIT ");
    m.append(text::dec_string(query.limit as u64).as_str());
    m.append("
         ");
    m.append(settings_clause);
    Ok(m)
}

/// The order of the transactions of an address: by slot, by place and by signature, all from the
/// newest on where the order is descending, and all from the oldest on where it is ascending.
proof fn lemma_order(sort_order: SortOrder)
    ensures
        "slot "@ + direction(sort_order) + ", slot_idx "@ + direction(sort_order) + ", signature "@
            + direction(sort_order) == (if sort_order is Desc {
            "slot DESC, slot_idx DESC, signature DESC"@
        } else {
            "slot ASC, slot_idx ASC, signature ASC"@
        }),
{
    reveal_strlit("slot ");
    reveal_strlit(", slot_idx ");
    reveal_strlit(", signature ");
    reveal_strlit("DESC");
    reveal_strlit("ASC");
    reveal_strlit("slot DESC, slot_idx DESC, signature DESC");
    reveal_strlit("slot ASC, slot_idx ASC, signature ASC");
}

/// The words of a query without a `WITH` clause.
#[verifier::rlimit(40)]
proof fn lemma_transactions_words(
    conditions: Seq<Seq<char>>,
    rows: Seq<char>,
    sort_order: SortOrder,
    limit: u64,
    settings_clause: Seq<char>,
)
    ensures
        sql::reads_as(transactions_query(Seq::empty(), conditions, rows, direction(sort_order), limit, settings_clause), seq![
            "SELECT"@,
            "base58Encode(signature) AS signature,"@,
            "slot,"@,
            "slot_idx,"@,
            "err,"@,
            "memo,"@,
            "block_time"@,
            "FROM ("@,
            "SELECT signature, slot, slot_idx, err, memo, block_time"@,
            "FROM ("@,
            rows,
            ")"@,
            "WHERE"@,
            where_text(conditions),
            "ORDER BY"@,
            if sort_order is Desc {
                "slot DESC, slot_idx DESC, signature DESC"@
            } else {
                "slot ASC, slot_idx ASC, signature ASC"@
            },
            "LIMIT 1 BY signature"@,
            ")"@,
            "ORDER BY"@,
            if sort_order is Desc {
                "slot DESC, slot_idx DESC, signature DESC"@
            } else {
                "slot ASC, slot_idx ASC, signature ASC"@
            },
            "LIMIT"@,
            text::dec(limit as nat),
            settings_clause,
        ]),
{
    let words = sql::first("SELECT"@);
    let words = sql::next(words, 12, "base58Encode(signature) AS signature,"@);
    let words = sql::next(words, 12, "slot,"@);
    let words = sql::next(words, 12, "slot_idx,"@);
    let words = sql::next(words, 12, "err,"@);
    let words = sql::next(words, 12, "memo,"@);
    let words = sql::next(words, 12, "block_time"@);
    let words = sql::next(words, 9, "FROM ("@);
    let words = sql::next(words, 12, "SELECT signature, slot, slot_idx, err, memo, block_time"@);
    let words = sql::next(words, 12, "FROM ("@);
    let words = sql::next(words, 16, rows);
    let words = sql::next(words, 12, ")"@);
    let words = sql::next(words, 12, "WHERE"@);
    let words = sql::next(words, -1, where_text(conditions));
    let words = sql::next(words, 12, "ORDER BY"@);
    let words = sql::next(words, -1, if sort_order is Desc {
                "slot DESC, slot_idx DESC, signature DESC"@
            } else {
                "slot ASC, slot_idx ASC, signature ASC"@
            });
    let words = sql::next(words, 12, "LIMIT 1 BY signature"@);
    let words = sql::next(words, 9, ")"@);
    let words = sql::next(words, 9, "ORDER BY"@);
    let words = sql::next(words, -1, if sort_order is Desc {
                "slot DESC, slot_idx DESC, signature DESC"@
            } else {
                "slot ASC, slot_idx ASC, signature ASC"@
            });
    let words = sql::next(words, 9, "LIMIT"@);
    let words = sql::next(words, -1, text::dec(limit as nat));
    let words = sql::next(words, 9, settings_clause);
    assert(sql::reads_as(transactions_query(Seq::empty(), conditions, rows, direction(sort_order), limit, settings_clause), words.1)) by {
        let order_dir = direction(sort_order);
        lemma_order(sort_order);
        assert("SELECT
            base58Encode(signature) AS signature,
            slot,
            slot_idx,
            err,
            memo,
            block_time
         FROM (
            SELECT signature, slot, slot_idx, err, memo, block_time
            FROM (
                "@ == "SELECT"@ + sql::gap(12) + "base58Encode(signature) AS signature,"@ + sql::gap(12) + "slot,"@ + sql::gap(12) + "slot_idx,"@ + sql::gap(12) + "err,"@ + sql::gap(12) + "memo,"@ + sql::gap(12) + "block_time"@ + sql::gap(9) + "FROM ("@ + sql::gap(12) + "SELECT signature, slot, slot_idx, err, memo, block_time"@ + sql::gap(12) + "FROM ("@ + sql::gap(16)) by {
            reveal_strlit("SELECT
            base58Encode(signature) AS signature,
            slot,
            slot_idx,
            err,
            memo,
            block_time
         FROM (
            SELECT signature, slot, slot_idx, err, memo, block_time
            FROM (
                ");
            reveal_strlit("SELECT");
            reveal_strlit("base58Encode(signature) AS signature,");
            reveal_strlit("slot,");
            reveal_strlit("slot_idx,");
            reveal_strlit("err,");
            reveal_strlit("memo,");
            reveal_strlit("block_time");
            reveal_strlit("FROM (");
            reveal_strlit("SELECT signature, slot, slot_idx, err, memo, block_time");
        }
        assert("
            )
            WHERE "@ == sql::gap(12) + ")"@ + sql::gap(12) + "WHERE"@ + sql::gap(-1)) by {
            reveal_strlit("
            )
            WHERE ");
            reveal_strlit(")");
            reveal_strlit("WHERE");
        }
        assert("
            ORDER BY slot "@ == sql::gap(12) + "ORDER BY"@ + sql::gap(-1) + "slot "@) by {
            reveal_strlit("
            ORDER BY slot ");
            reveal_strlit("ORDER BY");
            reveal_strlit("slot ");
        }
        assert("
            LIMIT 1 BY signature
         )
         ORDER BY slot "@ == sql::gap(12) + "LIMIT 1 BY signature"@ + sql::gap(9) + ")"@ + sql::gap(9) + "ORDER BY"@ + sql::gap(-1) + "slot "@) by {
            reveal_strlit("
            LIMIT 1 BY signature
         )
         ORDER BY slot ");
            reveal_strlit("LIMIT 1 BY signature");
            reveal_strlit(")");
            reveal_strlit("ORDER BY");
            reveal_strlit("slot ");
        }
        assert("
         LIMIT "@ == sql::gap(9) + "LIMIT"@ + sql::gap(-1)) by {
            reveal_strlit("
         LIMIT ");
            reveal_strlit("LIMIT");
        }
        assert("
         "@ == sql::gap(9)) by {
            reveal_strlit("
         ");
        }
        assert(Seq::<char>::empty() + "SELECT
            base58Encode(signature) AS signature,
            slot,
            slot_idx,
            err,
            memo,
            block_time
         FROM (
            SELECT signature, slot, slot_idx, err, memo, block_time
            FROM (
                "@ == "SELECT
            base58Encode(signature) AS signature,
            slot,
            slot_idx,
            err,
            memo,
            block_time
         FROM (
            SELECT signature, slot, slot_idx, err, memo, block_time
            FROM (
                "@);
        broadcast use sql::lemma_joined_first;

        sql::lemma_same_text(transactions_query(Seq::empty(), conditions, rows, direction(sort_order), limit, settings_clause), words);
    }
    assert(words.1 =~= seq![
        "SELECT"@,
        "base58Encode(signature) AS signature,"@,
        "slot,"@,
        "slot_idx,"@,
        "err,"@,
        "memo,"@,
        "block_time"@,
        "FROM ("@,
        "SELECT signature, slot, slot_idx, err, memo, block_time"@,
        "FROM ("@,
        rows,
        ")"@,
        "WHERE"@,
        where_text(conditions),
        "ORDER BY"@,
        if sort_order is Desc {
                "slot DESC, slot_idx DESC, signature DESC"@
            } else {
                "slot ASC, slot_idx ASC, signature ASC"@
            },
        "LIMIT 1 BY signature"@,
        ")"@,
        "ORDER BY"@,
        if sort_order is Desc {
                "slot DESC, slot_idx DESC, signature DESC"@
            } else {
                "slot ASC, slot_idx ASC, signature ASC"@
            },
        "LIMIT"@,
        text::dec(limit as nat),
        settings_clause,
    ]);
}

/// The transactions of an address are those of its rows that meet all conditions, each once. They come
/// from the newest on where the order is descending and from the oldest on where it is ascending, by
/// every key, and the limit takes the first of them in that order.
pub proof fn law_transactions_come_in_the_order_asked_for(
    with_parts: Seq<Seq<char>>,
    conditions: Seq<Seq<char>>,
    rows: Seq<char>,
    sort_order: SortOrder,
    limit: u64,
    settings_clause: Seq<char>,
)
    ensures
        ({
            let words = seq![
                "SELECT"@,
                "base58Encode(signature) AS signature,"@,
                "slot,"@,
                "slot_idx,"@,
                "err,"@,
                "memo,"@,
                "block_time"@,
                "FROM ("@,
                "SELECT signature, slot, slot_idx, err, memo, block_time"@,
                "FROM ("@,
                rows,
                ")"@,
                "WHERE"@,
                where_text(conditions),
                "ORDER BY"@,
                if sort_order is Desc {
                    "slot DESC, slot_idx DESC, signature DESC"@
                } else {
                    "slot ASC, slot_idx ASC, signature ASC"@
                },
                "LIMIT 1 BY signature"@,
                ")"@,
                "ORDER BY"@,
                if sort_order is Desc {
                    "slot DESC, slot_idx DESC, signature DESC"@
                } else {
                    "slot ASC, slot_idx ASC, signature ASC"@
                },
                "LIMIT"@,
                text::dec(limit as nat),
                settings_clause,
            ];
            let query = transactions_query(with_parts, conditions, rows, direction(sort_order), limit, settings_clause);
            &&& with_parts.len() == 0 ==> sql::reads_as(query, words)
            &&& with_parts.len() > 0 ==> sql::reads_as(
                query,
                seq!["WITH"@, text::join(with_parts, ", "@)] + words,
            )
        }),
{
    lemma_transactions_words(conditions, rows, sort_order, limit, settings_clause);
    if with_parts.len() == 0 {
        assert(with_parts =~= Seq::empty());
    } else {
        let words = seq![
            "SELECT"@,
            "base58Encode(signature) AS signature,"@,
            "slot,"@,
            "slot_idx,"@,
            "err,"@,
            "memo,"@,
            "block_time"@,
            "FROM ("@,
            "SELECT signature, slot, slot_idx, err, memo, block_time"@,
            "FROM ("@,
            rows,
            ")"@,
            "WHERE"@,
            where_text(conditions),
            "ORDER BY"@,
            if sort_order is Desc {
                "slot DESC, slot_idx DESC, signature DESC"@
            } else {
                "slot ASC, slot_idx ASC, signature ASC"@
            },
            "LIMIT 1 BY signature"@,
            ")"@,
            "ORDER BY"@,
            if sort_order is Desc {
                "slot DESC, slot_idx DESC, signature DESC"@
            } else {
                "slot ASC, slot_idx ASC, signature ASC"@
            },
            "LIMIT"@,
            text::dec(limit as nat),
            settings_clause,
        ];
        let plain = transactions_query(Seq::empty(), conditions, rows, direction(sort_order), limit, settings_clause);
        let listed = text::join(with_parts, ", "@);
        sql::lemma_reads_after(listed, plain, words);
        sql::lemma_reads_after("WITH"@, listed + sql::gap(-1) + plain, seq![listed] + words);
        assert(seq!["WITH"@] + (seq![listed] + words) =~= seq!["WITH"@, listed] + words);
        lemma_with_clause(with_parts, conditions, rows, direction(sort_order), limit, settings_clause);
    }
}

/// The parts of a `WITH` clause stand in front of the query.
proof fn lemma_with_clause(
    with_parts: Seq<Seq<char>>,
    conditions: Seq<Seq<char>>,
    rows: Seq<char>,
    order_dir: Seq<char>,
    limit: u64,
    settings_clause: Seq<char>,
)
    requires
        with_parts.len() > 0,
    ensures
        transactions_query(with_parts, conditions, rows, order_dir, limit, settings_clause) == "WITH"@
            + sql::gap(-1) + (text::join(with_parts, ", "@) + sql::gap(-1) + transactions_query(Seq::empty(), conditions, rows, order_dir, limit, settings_clause)),
{
    assert("WITH "@ == "WITH"@ + sql::gap(-1)) by {
        reveal_strlit("WITH ");
        reveal_strlit("WITH");
    }
    assert(" "@ == sql::gap(-1)) by {
        reveal_strlit(" ");
    }
    let front = "WITH "@ + text::join(with_parts, ", "@) + " "@;
    assert(front + Seq::<char>::empty() == front);
    broadcast use sql::lemma_joined_first;

    sql::lemma_equal(
        transactions_query(with_parts, conditions, rows, order_dir, limit, settings_clause),
        "WITH"@ + sql::gap(-1) + (text::join(with_parts, ", "@) + sql::gap(-1) + transactions_query(Seq::empty(), conditions, rows, order_dir, limit, settings_clause)),
    );
}

/// Where token accounts are left out, the rows of an address are those of its own history.
#[verifier::rlimit(60)]
pub proof fn law_rows_of_an_address_are_its_own(
    gsfa_table: Seq<char>,
    gsfa_bucket_modulus: u64,
    token_owner_table: Seq<char>,
    token_owner_bucket_modulus: u64,
    address: Seq<char>,
)
    ensures
        sql::reads_as(address_rows(gsfa_table, gsfa_bucket_modulus, token_owner_table, token_owner_bucket_modulus, address, TokenAccountsFilter::Omitted), seq![
            "SELECT signature, slot, slot_idx, err, memo, block_time"@,
            "FROM"@,
            gsfa_table,
            "PREWHERE"@,
            "addr_bucket = cityHash64("@ + address_expression(address) + ") % "@ + text::dec(gsfa_bucket_modulus as nat),
            "AND"@,
            "address = "@ + address_expression(address),
        ]),
{
    let literal = address_expression(address);
    let words = sql::first("SELECT signature, slot, slot_idx, err, memo, block_time"@);
    let words = sql::next(words, 9, "FROM"@);
    let words = sql::next(words, -1, gsfa_table);
    let words = sql::next(words, 9, "PREWHERE"@);
    let words = sql::next(words, -1, "addr_bucket = cityHash64("@ + literal + ") % "@ + text::dec(gsfa_bucket_modulus as nat));
    let words = sql::next(words, -1, "AND"@);
    let words = sql::next(words, -1, "address = "@ + literal);
    assert(sql::reads_as(address_rows(gsfa_table, gsfa_bucket_modulus, token_owner_table, token_owner_bucket_modulus, address, TokenAccountsFilter::Omitted), words.1)) by {
        assert("SELECT signature, slot, slot_idx, err, memo, block_time
         FROM "@ == "SELECT signature, slot, slot_idx, err, memo, block_time"@ + sql::gap(9) + "FROM"@ + sql::gap(-1)) by {
            reveal_strlit("SELECT signature, slot, slot_idx, err, memo, block_time
         FROM ");
            reveal_strlit("SELECT signature, slot, slot_idx, err, memo, block_time");
            reveal_strlit("FROM");
        }
        assert("
         PREWHERE addr_bucket = cityHash64("@ == sql::gap(9) + "PREWHERE"@ + sql::gap(-1) + "addr_bucket = cityHash64("@) by {
            reveal_strlit("
         PREWHERE addr_bucket = cityHash64(");
            reveal_strlit("PREWHERE");
            reveal_strlit("addr_bucket = cityHash64(");
        }
        assert(" AND address = "@ == sql::gap(-1) + "AND"@ + sql::gap(-1) + "address = "@) by {
            reveal_strlit(" AND address = ");
            reveal_strlit("AND");
            reveal_strlit("address = ");
        }
        broadcast use sql::lemma_joined_first;

        sql::lemma_same_text(address_rows(gsfa_table, gsfa_bucket_modulus, token_owner_table, token_owner_bucket_modulus, address, TokenAccountsFilter::Omitted), words);
    }
    assert(words.1 =~= seq![
        "SELECT signature, slot, slot_idx, err, memo, block_time"@,
        "FROM"@,
        gsfa_table,
        "PREWHERE"@,
        "addr_bucket = cityHash64("@ + literal + ") % "@ + text::dec(gsfa_bucket_modulus as nat),
        "AND"@,
        "address = "@ + literal,
    ]);
}

/// Where all token accounts count, the rows of the accounts that the address owns come on top.
#[verifier::rlimit(60)]
pub proof fn law_rows_of_token_accounts_count_too(
    gsfa_table: Seq<char>,
    gsfa_bucket_modulus: u64,
    token_owner_table: Seq<char>,
    token_owner_bucket_modulus: u64,
    address: Seq<char>,
)
    ensures
        sql::reads_as(address_rows(gsfa_table, gsfa_bucket_modulus, token_owner_table, token_owner_bucket_modulus, address, TokenAccountsFilter::All), seq![
            "SELECT signature, slot, slot_idx, err, memo, block_time"@,
            "FROM"@,
            gsfa_table,
            "PREWHERE"@,
            "addr_bucket = cityHash64("@ + address_expression(address) + ") % "@ + text::dec(gsfa_bucket_modulus as nat),
            "AND"@,
            "address = "@ + address_expression(address),
            "UNION ALL"@,
            "SELECT signature, slot, slot_idx, err, memo, block_time"@,
            "FROM"@,
            token_owner_table,
            "PREWHERE"@,
            "owner_bucket = cityHash64("@ + address_expression(address) + ") % "@ + text::dec(token_owner_bucket_modulus as nat),
            "AND"@,
            "owner = "@ + address_expression(address),
        ]),
{
    let literal = address_expression(address);
    let words = sql::first("SELECT signature, slot, slot_idx, err, memo, block_time"@);
    let words = sql::next(words, 9, "FROM"@);
    let words = sql::next(words, -1, gsfa_table);
    let words = sql::next(words, 9, "PREWHERE"@);
    let words = sql::next(words, -1, "addr_bucket = cityHash64("@ + literal + ") % "@ + text::dec(gsfa_bucket_modulus as nat));
    let words = sql::next(words, -1, "AND"@);
    let words = sql::next(words, -1, "address = "@ + literal);
    let words = sql::next(words, 0, "UNION ALL"@);
    let words = sql::next(words, 0, "SELECT signature, slot, slot_idx, err, memo, block_time"@);
    let words = sql::next(words, 13, "FROM"@);
    let words = sql::next(words, -1, token_owner_table);
    let words = sql::next(words, 13, "PREWHERE"@);
    let words = sql::next(words, -1, "owner_bucket = cityHash64("@ + literal + ") % "@ + text::dec(token_owner_bucket_modulus as nat));
    let words = sql::next(words, -1, "AND"@);
    let words = sql::next(words, -1, "owner = "@ + literal);
    assert(sql::reads_as(address_rows(gsfa_table, gsfa_bucket_modulus, token_owner_table, token_owner_bucket_modulus, address, TokenAccountsFilter::All), words.1)) by {
        assert("SELECT signature, slot, slot_idx, err, memo, block_time
         FROM "@ == "SELECT signature, slot, slot_idx, err, memo, block_time"@ + sql::gap(9) + "FROM"@ + sql::gap(-1)) by {
            reveal_strlit("SELECT signature, slot, slot_idx, err, memo, block_time
         FROM ");
            reveal_strlit("SELECT signature, slot, slot_idx, err, memo, block_time");
            reveal_strlit("FROM");
        }
        assert("
         PREWHERE addr_bucket = cityHash64("@ == sql::gap(9) + "PREWHERE"@ + sql::gap(-1) + "addr_bucket = cityHash64("@) by {
            reveal_strlit("
         PREWHERE addr_bucket = cityHash64(");
            reveal_strlit("PREWHERE");
            reveal_strlit("addr_bucket = cityHash64(");
        }
        assert(" AND address = "@ == sql::gap(-1) + "AND"@ + sql::gap(-1) + "address = "@) by {
            reveal_strlit(" AND address = ");
            reveal_strlit("AND");
            reveal_strlit("address = ");
        }
        assert("
UNION ALL
SELECT signature, slot, slot_idx, err, memo, block_time
             FROM "@ == sql::gap(0) + "UNION ALL"@ + sql::gap(0) + "SELECT signature, slot, slot_idx, err, memo, block_time"@ + sql::gap(13) + "FROM"@ + sql::gap(-1)) by {
            reveal_strlit("
UNION ALL
SELECT signature, slot, slot_idx, err, memo, block_time
             FROM ");
            reveal_strlit("UNION ALL");
            reveal_strlit("SELECT signature, slot, slot_idx, err, memo, block_time");
            reveal_strlit("FROM");
        }
        assert("
             PREWHERE owner_bucket = cityHash64("@ == sql::gap(13) + "PREWHERE"@ + sql::gap(-1) + "owner_bucket = cityHash64("@) by {
            reveal_strlit("
             PREWHERE owner_bucket = cityHash64(");
            reveal_strlit("PREWHERE");
            reveal_strlit("owner_bucket = cityHash64(");
        }
        assert(" AND owner = "@ == sql::gap(-1) + "AND"@ + sql::gap(-1) + "owner = "@) by {
            reveal_strlit(" AND owner = ");
            reveal_strlit("AND");
            reveal_strlit("owner = ");
        }
        broadcast use sql::lemma_joined_first;

        sql::lemma_same_text(address_rows(gsfa_table, gsfa_bucket_modulus, token_owner_table, token_owner_bucket_modulus, address, TokenAccountsFilter::All), words);
    }
    assert(words.1 =~= seq![
        "SELECT signature, slot, slot_idx, err, memo, block_time"@,
        "FROM"@,
        gsfa_table,
        "PREWHERE"@,
        "addr_bucket = cityHash64("@ + literal + ") % "@ + text::dec(gsfa_bucket_modulus as nat),
        "AND"@,
        "address = "@ + literal,
        "UNION ALL"@,
        "SELECT signature, slot, slot_idx, err, memo, block_time"@,
        "FROM"@,
        token_owner_table,
        "PREWHERE"@,
        "owner_bucket = cityHash64("@ + literal + ") % "@ + text::dec(token_owner_bucket_modulus as nat),
        "AND"@,
        "owner = "@ + literal,
    ]);
}

/// Where token accounts count whose balance changed, those of their rows come on top that changed it.
#[verifier::rlimit(60)]
pub proof fn law_rows_of_changed_token_accounts_count_too(
    gsfa_table: Seq<char>,
    gsfa_bucket_modulus: u64,
    token_owner_table: Seq<char>,
    token_owner_bucket_modulus: u64,
    address: Seq<char>,
)
    ensures
        sql::reads_as(address_rows(gsfa_table, gsfa_bucket_modulus, token_owner_table, token_owner_bucket_modulus, address, TokenAccountsFilter::BalanceChanged), seq![
            "SELECT signature, slot, slot_idx, err, memo, block_time"@,
            "FROM"@,
            gsfa_table,
            "PREWHERE"@,
            "addr_bucket = cityHash64("@ + address_expression(address) + ") % "@ + text::dec(gsfa_bucket_modulus as nat),
            "AND"@,
            "address = "@ + address_expression(address),
            "UNION ALL"@,
            "SELECT signature, slot, slot_idx, err, memo, block_time"@,
            "FROM"@,
            token_owner_table,
            "PREWHERE"@,
            "owner_bucket = cityHash64("@ + address_expression(address) + ") % "@ + text::dec(token_owner_bucket_modulus as nat),
            "AND"@,
            "owner = "@ + address_expression(address),
            "WHERE"@,
            "balance_changed = 1"@,
        ]),
{
    let literal = address_expression(address);
    let words = sql::first("SELECT signature, slot, slot_idx, err, memo, block_time"@);
    let words = sql::next(words, 9, "FROM"@);
    let words = sql::next(words, -1, gsfa_table);
    let words = sql::next(words, 9, "PREWHERE"@);
    let words = sql::next(words, -1, "addr_bucket = cityHash64("@ + literal + ") % "@ + text::dec(gsfa_bucket_modulus as nat));
    let words = sql::next(words, -1, "AND"@);
    let words = sql::next(words, -1, "address = "@ + literal);
    let words = sql::next(words, 0, "UNION ALL"@);
    let words = sql::next(words, 0, "SELECT signature, slot, slot_idx, err, memo, block_time"@);
    let words = sql::next(words, 13, "FROM"@);
    let words = sql::next(words, -1, token_owner_table);
    let words = sql::next(words, 13, "PREWHERE"@);
    let words = sql::next(words, -1, "owner_bucket = cityHash64("@ + literal + ") % "@ + text::dec(token_owner_bucket_modulus as nat));
    let words = sql::next(words, -1, "AND"@);
    let words = sql::next(words, -1, "owner = "@ + literal);
    let words = sql::next(words, -1, "WHERE"@);
    let words = sql::next(words, -1, "balance_changed = 1"@);
    assert(sql::reads_as(address_rows(gsfa_table, gsfa_bucket_modulus, token_owner_table, token_owner_bucket_modulus, address, TokenAccountsFilter::BalanceChanged), words.1)) by {
        assert("SELECT signature, slot, slot_idx, err, memo, block_time
         FROM "@ == "SELECT signature, slot, slot_idx, err, memo, block_time"@ + sql::gap(9) + "FROM"@ + sql::gap(-1)) by {
            reveal_strlit("SELECT signature, slot, slot_idx, err, memo, block_time
         FROM ");
            reveal_strlit("SELECT signature, slot, slot_idx, err, memo, block_time");
            reveal_strlit("FROM");
        }
        assert("
         PREWHERE addr_bucket = cityHash64("@ == sql::gap(9) + "PREWHERE"@ + sql::gap(-1) + "addr_bucket = cityHash64("@) by {
            reveal_strlit("
         PREWHERE addr_bucket = cityHash64(");
            reveal_strlit("PREWHERE");
            reveal_strlit("addr_bucket = cityHash64(");
        }
        assert(" AND address = "@ == sql::gap(-1) + "AND"@ + sql::gap(-1) + "address = "@) by {
            reveal_strlit(" AND address = ");
            reveal_strlit("AND");
            reveal_strlit("address = ");
        }
        assert("
UNION ALL
SELECT signature, slot, slot_idx, err, memo, block_time
             FROM "@ == sql::gap(0) + "UNION ALL"@ + sql::gap(0) + "SELECT signature, slot, slot_idx, err, memo, block_time"@ + sql::gap(13) + "FROM"@ + sql::gap(-1)) by {
            reveal_strlit("
UNION ALL
SELECT signature, slot, slot_idx, err, memo, block_time
             FROM ");
            reveal_strlit("UNION ALL");
            reveal_strlit("SELECT signature, slot, slot_idx, err, memo, block_time");
            reveal_strlit("FROM");
        }
        assert("
             PREWHERE owner_bucket = cityHash64("@ == sql::gap(13) + "PREWHERE"@ + sql::gap(-1) + "owner_bucket = cityHash64("@) by {
            reveal_strlit("
             PREWHERE owner_bucket = cityHash64(");
            reveal_strlit("PREWHERE");
            reveal_strlit("owner_bucket = cityHash64(");
        }
        assert(" AND owner = "@ == sql::gap(-1) + "AND"@ + sql::gap(-1) + "owner = "@) by {
            reveal_strlit(" AND owner = ");
            reveal_strlit("AND");
            reveal_strlit("owner = ");
        }
        assert(" WHERE balance_changed = 1"@ == sql::gap(-1) + "WHERE"@ + sql::gap(-1) + "balance_changed = 1"@) by {
            reveal_strlit(" WHERE balance_changed = 1");
            reveal_strlit("WHERE");
            reveal_strlit("balance_changed = 1");
        }
        broadcast use sql::lemma_joined_first;

        sql::lemma_same_text(address_rows(gsfa_table, gsfa_bucket_modulus, token_owner_table, token_owner_bucket_modulus, address, TokenAccountsFilter::BalanceChanged), words);
    }
    assert(words.1 =~= seq![
        "SELECT signature, slot, slot_idx, err, memo, block_time"@,
        "FROM"@,
        gsfa_table,
        "PREWHERE"@,
        "addr_bucket = cityHash64("@ + literal + ") % "@ + text::dec(gsfa_bucket_modulus as nat),
        "AND"@,
        "address = "@ + literal,
        "UNION ALL"@,
        "SELECT signature, slot, slot_idx, err, memo, block_time"@,
        "FROM"@,
        token_owner_table,
        "PREWHERE"@,
        "owner_bucket = cityHash64("@ + literal + ") % "@ + text::dec(token_owner_bucket_modulus as nat),
        "AND"@,
        "owner = "@ + literal,
        "WHERE"@,
        "balance_changed = 1"@,
    ]);
}

/// What is wrong with the signature filter is what is wrong with the query.
proof fn lemma_clauses_keep_errors(
    table: Seq<char>,
    modulus: u64,
    query: TransactionsForAddressQuery,
    message: Seq<char>,
)
    requires
        query.signature_filter is Some,
        ({
            let start: Clauses = Ok(
                (
                    Seq::empty(),
                    status_conditions(query.status) + opt_conditions(
                        "slot + toUInt64(0)"@,
                        query.slot_filter,
                    ) + opt_conditions("block_time"@, query.block_time_filter),
                ),
            );
            add_signature_filter(start, table, modulus, query.signature_filter->0) == Err::<
                (Seq<Seq<char>>, Seq<Seq<char>>),
                Seq<char>,
            >(message)
        }),
    ensures
        transactions_clauses(table, modulus, query) == Err::<
            (Seq<Seq<char>>, Seq<Seq<char>>),
            Seq<char>,
        >(message),
{
}

/// The conditions of a query for the transactions of a hot address.
pub open spec fn hot_conditions(query: TransactionsForAddressQuery) -> Seq<Seq<char>> {
    status_conditions(query.status) + opt_conditions("slot"@, query.slot_filter) + opt_conditions(
        "block_time"@,
        query.block_time_filter,
    ) + (match query.resolved_signature_filter {
        Some(filter) => resolved_conditions(filter),
        None => Seq::empty(),
    }) + (match query.resolved_pagination {
        Some(pagination) => seq![
            raw_position_condition(pagination, page_comparison(query.sort_order)),
        ],
        None => Seq::empty(),
    })
}

/// The query for the transactions of a hot address.
pub open spec fn hot_transactions_query(
    gsfa_table: Seq<char>,
    gsfa_bucket_modulus: u64,
    query: TransactionsForAddressQuery,
    settings_clause: Seq<char>,
) -> Seq<char> {
    let literal = address_expression(query.address@);
    let order_dir = direction(query.sort_order);
    ("SELECT
            base58Encode(signature) AS signature,
            slot,
            slot_idx,
            err,
            memo,
            block_time
         FROM (
            SELECT signature, slot, slot_idx, err, memo, block_time
            FROM "@ + gsfa_table + "
            PREWHERE addr_bucket = cityHash64("@ + literal + ") % "@ + text::dec(gsfa_bucket_modulus as nat) + " AND address = "@ + literal + "
            WHERE "@ + where_text(hot_conditions(query)) + "
            ORDER BY slot "@ + order_dir + ", slot_idx "@ + order_dir + ", signature "@ + order_dir + "
            LIMIT 1 BY signature
         )
         ORDER BY slot "@ + order_dir + ", slot_idx "@ + order_dir + ", signature "@ + order_dir + "
         LIMIT "@ + text::dec(query.limit as nat) + "
         "@ + settings_clause)
}

/// Builds the query for the transactions of a hot address. Token accounts are not part of it.
pub fn build_transactions_for_address_hot_query(
    gsfa_table: &str,
    gsfa_bucket_modulus: u64,
    query: &TransactionsForAddressQuery,
    settings_clause: &str,
) -> (r: Result<String, ProcessingError>)
    ensures
        match r {
            Ok(q) => query.token_accounts is Omitted && q@ == hot_transactions_query(
                gsfa_table@,
                gsfa_bucket_modulus,
                *query,
                settings_clause@,
            ),
            Err(e) => {
                &&& !(query.token_accounts is Omitted)
                &&& e is Database
                &&& e.context() == "hot GSFA fanout only supports tokenAccounts=none"@
            },
        },
{
    if query.token_accounts != TokenAccountsFilter::Omitted {
        return Err(
            ProcessingError::database_msg(
                "hot GSFA fanout only supports tokenAccounts=none".to_owned(),
            ),
        );
    }
    let literal = address_expression_text(query.address.as_str());
    let mut conditions: Vec<String> = status_condition_texts(query.status);
    append_opt_filter("slot", &query.slot_filter, &mut conditions);
    append_opt_filter("block_time", &query.block_time_filter, &mut conditions);
    if let Some(filter) = &query.resolved_signature_filter {
        apply_hot_resolved_signature_filter(filter, &mut conditions);
    }
    if let Some(pagination) = query.resolved_pagination {
        apply_hot_resolved_pagination_token(pagination, query.sort_order, &mut conditions);
    }
    proof {
        assert(text::texts(conditions@) =~= hot_conditions(*query));
    }
    let where_clause = where_clause_of(&conditions);
    let order_dir = direction_text(query.sort_order);
    let mut m = "SELECT
            base58Encode(signature) AS signature,
            slot,
            slot_idx,
            err,
            memo,
            block_time
         FROM (
            SELECT signature, slot, slot_idx, err, memo, block_time
            FROM ".to_owned();
    m.append(gsfa_table);
    m.append("
            PREWHERE addr_bucket = cityHash64(");
    m.append(literal.as_str());
    m.append(") % ");
    m.append(text::dec_string(gsfa_bucket_modulus as u64).as_str());
    m.append(" AND address = ");
    m.append(literal.as_str());
    m.append("
            WHERE ");
    m.append(where_clause.as_str());
    m.append("
            ORDER BY slot ");
    m.append(order_dir);
    m.append(", slot_idx ");
    m.append(order_dir);
    m.append(", signature ");
    m.append(order_dir);
    m.append("
            LIMIT 1 BY signature
         )
         ORDER BY slot ");
    m.append(order_dir);
    m.append(", slot_idx ");
    m.append(order_dir);
    m.append(", signature ");
    m.append(order_dir);
    m.append("
         LIMIT ");
    m.append(text::dec_string(query.limit as u64).as_str());
    m.append("
         ");
    m.append(settings_clause);
    Ok(m)
}

/// The transactions of a hot address are those of its own history that meet all conditions, each once,
/// in the order that is asked for, and the limit takes the first of them in that order.
#[verifier::spinoff_prover]
#[verifier::rlimit(100)]
pub proof fn law_hot_transactions_come_in_the_order_asked_for(
    gsfa_table: Seq<char>,
    gsfa_bucket_modulus: u64,
    query: TransactionsForAddressQuery,
    settings_clause: Seq<char>,
)
    ensures
        sql::reads_as(hot_transactions_query(gsfa_table, gsfa_bucket_modulus, query, settings_clause), seq![
            "SELECT"@,
            "base58Encode(signature) AS signature,"@,
            "slot,"@,
            "slot_idx,"@,
            "err,"@,
            "memo,"@,
            "block_time"@,
            "FROM ("@,
            "SELECT signature, slot, slot_idx, err, memo, block_time"@,
            "FROM"@,
            gsfa_table,
            "PREWHERE"@,
            "addr_bucket = cityHash64("@ + address_expression(query.address@) + ") % "@ + text::dec(gsfa_bucket_modulus as nat),
            "AND"@,
            "address = "@ + address_expression(query.address@),
            "WHERE"@,
            where_text(hot_conditions(query)),
            "ORDER BY"@,
            if query.sort_order is Desc {
                "slot DESC, slot_idx DESC, signature DESC"@
            } else {
                "slot ASC, slot_idx ASC, signature ASC"@
            },
            "LIMIT 1 BY signature"@,
            ")"@,
            "ORDER BY"@,
            if query.sort_order is Desc {
                "slot DESC, slot_idx DESC, signature DESC"@
            } else {
                "slot ASC, slot_idx ASC, signature ASC"@
            },
            "LIMIT"@,
            text::dec(query.limit as nat),
            settings_clause,
        ]),
{
    let literal = address_expression(query.address@);
    let words = sql::first("SELECT"@);
    let words = sql::next(words, 12, "base58Encode(signature) AS signature,"@);
    let words = sql::next(words, 12, "slot,"@);
    let words = sql::next(words, 12, "slot_idx,"@);
    let words = sql::next(words, 12, "err,"@);
    let words = sql::next(words, 12, "memo,"@);
    let words = sql::next(words, 12, "block_time"@);
    let words = sql::next(words, 9, "FROM ("@);
    let words = sql::next(words, 12, "SELECT signature, slot, slot_idx, err, memo, block_time"@);
    let words = sql::next(words, 12, "FROM"@);
    let words = sql::next(words, -1, gsfa_table);
    let words = sql::next(words, 12, "PREWHERE"@);
    let words = sql::next(words, -1, "addr_bucket = cityHash64("@ + literal + ") % "@ + text::dec(gsfa_bucket_modulus as nat));
    let words = sql::next(words, -1, "AND"@);
    let words = sql::next(words, -1, "address = "@ + literal);
    let words = sql::next(words, 12, "WHERE"@);
    let words = sql::next(words, -1, where_text(hot_conditions(query)));
    let words = sql::next(words, 12, "ORDER BY"@);
    let words = sql::next(words, -1, if query.sort_order is Desc {
                "slot DESC, slot_idx DESC, signature DESC"@
            } else {
                "slot ASC, slot_idx ASC, signature ASC"@
            });
    let words = sql::next(words, 12, "LIMIT 1 BY signature"@);
    let words = sql::next(words, 9, ")"@);
    let words = sql::next(words, 9, "ORDER BY"@);
    let words = sql::next(words, -1, if query.sort_order is Desc {
                "slot DESC, slot_idx DESC, signature DESC"@
            } else {
                "slot ASC, slot_idx ASC, signature ASC"@
            });
    let words = sql::next(words, 9, "LIMIT"@);
    let words = sql::next(words, -1, text::dec(query.limit as nat));
    let words = sql::next(words, 9, settings_clause);
    assert(sql::reads_as(hot_transactions_query(gsfa_table, gsfa_bucket_modulus, query, settings_clause), words.1)) by {
        let order_dir = direction(query.sort_order);
        lemma_order(query.sort_order);
        assert("SELECT
            base58Encode(signature) AS signature,
            slot,
            slot_idx,
            err,
            memo,
            block_time
         FROM (
            SELECT signature, slot, slot_idx, err, memo, block_time
            FROM "@ == "SELECT"@ + sql::gap(12) + "base58Encode(signature) AS signature,"@ + sql::gap(12) + "slot,"@ + sql::gap(12) + "slot_idx,"@ + sql::gap(12) + "err,"@ + sql::gap(12) + "memo,"@ + sql::gap(12) + "block_time"@ + sql::gap(9) + "FROM ("@ + sql::gap(12) + "SELECT signature, slot, slot_idx, err, memo, block_time"@ + sql::gap(12) + "FROM"@ + sql::gap(-1)) by {
            reveal_strlit("SELECT
            base58Encode(signature) AS signature,
            slot,
            slot_idx,
            err,
            memo,
            block_time
         FROM (
            SELECT signature, slot, slot_idx, err, memo, block_time
            FROM ");
            reveal_strlit("SELECT");
            reveal_strlit("base58Encode(signature) AS signature,");
            reveal_strlit("slot,");
            reveal_strlit("slot_idx,");
            reveal_strlit("err,");
            reveal_strlit("memo,");
            reveal_strlit("block_time");
            reveal_strlit("FROM (");
            reveal_strlit("SELECT signature, slot, slot_idx, err, memo, block_time");
            reveal_strlit("FROM");
        }
        assert("
            PREWHERE addr_bucket = cityHash64("@ == sql::gap(12) + "PREWHERE"@ + sql::gap(-1) + "addr_bucket = cityHash64("@) by {
            reveal_strlit("
            PREWHERE addr_bucket = cityHash64(");
            reveal_strlit("PREWHERE");
            reveal_strlit("addr_bucket = cityHash64(");
        }
        assert(" AND address = "@ == sql::gap(-1) + "AND"@ + sql::gap(-1) + "address = "@) by {
            reveal_strlit(" AND address = ");
            reveal_strlit("AND");
            reveal_strlit("address = ");
        }
        assert("
            WHERE "@ == sql::gap(12) + "WHERE"@ + sql::gap(-1)) by {
            reveal_strlit("
            WHERE ");
            reveal_strlit("WHERE");
        }
        assert("
            ORDER BY slot "@ == sql::gap(12) + "ORDER BY"@ + sql::gap(-1) + "slot "@) by {
            reveal_strlit("
            ORDER BY slot ");
            reveal_strlit("ORDER BY");
            reveal_strlit("slot ");
        }
        assert("
            LIMIT 1 BY signature
         )
         ORDER BY slot "@ == sql::gap(12) + "LIMIT 1 BY signature"@ + sql::gap(9) + ")"@ + sql::gap(9) + "ORDER BY"@ + sql::gap(-1) + "slot "@) by {
            reveal_strlit("
            LIMIT 1 BY signature
         )
         ORDER BY slot ");
            reveal_strlit("LIMIT 1 BY signature");
            reveal_strlit(")");
            reveal_strlit("ORDER BY");
            reveal_strlit("slot ");
        }
        assert("
         LIMIT "@ == sql::gap(9) + "LIMIT"@ + sql::gap(-1)) by {
            reveal_strlit("
         LIMIT ");
            reveal_strlit("LIMIT");
        }
        assert("
         "@ == sql::gap(9)) by {
            reveal_strlit("
         ");
        }
        broadcast use sql::lemma_joined_first;

        sql::lemma_same_text(hot_transactions_query(gsfa_table, gsfa_bucket_modulus, query, settings_clause), words);
    }
    assert(words.1 =~= seq![
        "SELECT"@,
        "base58Encode(signature) AS signature,"@,
        "slot,"@,
        "slot_idx,"@,
        "err,"@,
        "memo,"@,
        "block_time"@,
        "FROM ("@,
        "SELECT signature, slot, slot_idx, err, memo, block_time"@,
        "FROM"@,
        gsfa_table,
        "PREWHERE"@,
        "addr_bucket = cityHash64("@ + literal + ") % "@ + text::dec(gsfa_bucket_modulus as nat),
        "AND"@,
        "address = "@ + literal,
        "WHERE"@,
        where_text(hot_conditions(query)),
        "ORDER BY"@,
        if query.sort_order is Desc {
                "slot DESC, slot_idx DESC, signature DESC"@
            } else {
                "slot ASC, slot_idx ASC, signature ASC"@
            },
        "LIMIT 1 BY signature"@,
        ")"@,
        "ORDER BY"@,
        if query.sort_order is Desc {
                "slot DESC, slot_idx DESC, signature DESC"@
            } else {
                "slot ASC, slot_idx ASC, signature ASC"@
            },
        "LIMIT"@,
        text::dec(query.limit as nat),
        settings_clause,
    ]);
}

/// A slot and a literal as a tuple.
pub open spec fn pair_text(pair: (u64, String)) -> Seq<char> {
    ("("@ + text::dec(pair.0 as nat) + ", "@ + pair.1@ + ")"@)
}

/// The tuples of some pairs.
pub open spec fn pair_texts(pairs: Seq<(u64, String)>) -> Seq<Seq<char>> {
    Seq::new(pairs.len(), |i: int| pair_text(pairs[i]))
}

/// The membership tests of pairs, in chunks of `n`, the last one shorter where they do not divide.
pub open spec fn chunk_tests(pairs: Seq<(u64, String)>, n: int) -> Seq<Seq<char>>
    decreases pairs.len(),
{
    if pairs.len() == 0 || n <= 0 {
        Seq::empty()
    } else if pairs.len() <= n {
        seq![("(slot, signature) IN ("@ + text::join(pair_texts(pairs), ", "@) + ")"@)]
    } else {
        seq![("(slot, signature) IN ("@ + text::join(pair_texts(pairs.take(n)), ", "@) + ")"@)]
            + chunk_tests(pairs.skip(n), n)
    }
}

fn chunk_test(pairs: &[(u64, String)], from: usize, to: usize) -> (r: String)
    requires
        from <= to <= pairs@.len(),
    ensures
        r@ == ("(slot, signature) IN ("@ + text::join(pair_texts(pairs@.subrange(from as int, to as int)), ", "@) + ")"@),
{
    let ghost part = pairs@.subrange(from as int, to as int);
    let mut tuples: Vec<String> = Vec::new();
    let mut i: usize = from;
    while i < to
        invariant
            from <= i <= to <= pairs@.len(),
            part == pairs@.subrange(from as int, to as int),
            text::texts(tuples@) == pair_texts(part).take(i - from),
        decreases to - i,
    {
        let pair = &pairs[i];
        let tuple = {
            let mut m = "(".to_owned();
            m.append(text::dec_string(pair.0 as u64).as_str());
            m.append(", ");
            m.append(pair.1.as_str());
            m.append(")");
            m
        };
        text::push_text(&mut tuples, tuple);
        i += 1;
        proof {
            let all = pair_texts(part);
            assert(all[i - 1 - from] == pair_text(*pair));
            assert(all.take(i - from) =~= all.take(i - 1 - from).push(all[i - 1 - from]));
        }
    }
    proof {
        assert(pair_texts(part).take(to - from) =~= pair_texts(part));
    }
    let mut m = "(slot, signature) IN (".to_owned();
    m.append(text::join_texts(&tuples, ", ").as_str());
    m.append(")");
    m
}

/// The query for transactions by slot and signature.
pub open spec fn slot_signatures_query(
    table: Seq<char>,
    pairs: Seq<(u64, String)>,
    version_filter: Seq<char>,
    settings_clause: Seq<char>,
    in_clause_chunk: usize,
) -> Seq<char> {
    let size = if in_clause_chunk == 0 {
        1int
    } else {
        in_clause_chunk as int
    };
    let tests = chunk_tests(pairs, size);
    let prewhere_clause = if tests.len() == 1 {
        tests[0]
    } else {
        ("("@ + text::join(tests, " OR "@) + ")"@)
    };
    ("SELECT
            "@ + TRANSACTION_SELECT_COLUMNS@ + "
         FROM "@ + table + "
         PREWHERE "@ + prewhere_clause + "
         WHERE "@ + version_filter + "
         "@ + settings_clause)
}

/// Builds the query for transactions by slot and signature. The tuples are tested in chunks.
pub fn build_transactions_by_slot_signatures_query(
    transaction_table: &str,
    pairs: &[(u64, String)],
    version_filter: &str,
    settings_clause: &str,
    in_clause_chunk: usize,
) -> (q: String)
    ensures
        q@ == slot_signatures_query(
            transaction_table@,
            pairs@,
            version_filter@,
            settings_clause@,
            in_clause_chunk,
        ),
{
    let size: usize = if in_clause_chunk == 0 {
        1
    } else {
        in_clause_chunk
    };
    let mut tests: Vec<String> = Vec::new();
    let mut from: usize = 0;
    proof {
        assert(pairs@.skip(0) =~= pairs@);
        assert(text::texts(tests@) + chunk_tests(pairs@, size as int) =~= chunk_tests(
            pairs@,
            size as int,
        ));
    }
    while from < pairs.len()
        invariant
            size > 0,
            from <= pairs@.len(),
            text::texts(tests@) + chunk_tests(pairs@.skip(from as int), size as int) == chunk_tests(
                pairs@,
                size as int,
            ),
        decreases pairs@.len() - from,
    {
        let to: usize = if pairs.len() - from <= size {
            pairs.len()
        } else {
            from + size
        };
        let ghost rest = pairs@.skip(from as int);
        let ghost before = text::texts(tests@);
        let test = chunk_test(pairs, from, to);
        text::push_text(&mut tests, test);
        proof {
            if rest.len() <= size {
                assert(pairs@.subrange(from as int, to as int) =~= rest);
                assert(pairs@.skip(to as int) =~= Seq::<(u64, String)>::empty());
                assert(chunk_tests(rest, size as int) =~= seq![test@]);
            } else {
                assert(pairs@.subrange(from as int, to as int) =~= rest.take(size as int));
                assert(rest.skip(size as int) =~= pairs@.skip(to as int));
            }
            assert(text::texts(tests@) + chunk_tests(pairs@.skip(to as int), size as int)
                =~= before + chunk_tests(rest, size as int));
        }
        from = to;
    }
    proof {
        assert(pairs@.skip(from as int) =~= Seq::<(u64, String)>::empty());
        assert(text::texts(tests@) =~= chunk_tests(pairs@, size as int));
    }
    let prewhere_clause = if tests.len() == 1 {
        tests[0].clone()
    } else {
        let mut m = "(".to_owned();
        m.append(text::join_texts(&tests, " OR ").as_str());
        m.append(")");
        m
    };
    let mut m = "SELECT
            ".to_owned();
    m.append(TRANSACTION_SELECT_COLUMNS);
    m.append("
         FROM ");
    m.append(transaction_table);
    m.append("
         PREWHERE ");
    m.append(prewhere_clause.as_str());
    m.append("
         WHERE ");
    m.append(version_filter);
    m.append("
         ");
    m.append(settings_clause);
    m
}

/// Transactions are looked for by any of the tests on slots and signatures, and no test is left out.
pub proof fn law_transactions_pass_any_test(
    table: Seq<char>,
    pairs: Seq<(u64, String)>,
    version_filter: Seq<char>,
    settings_clause: Seq<char>,
    in_clause_chunk: usize,
)
    ensures
        ({
            let tests = chunk_tests(
                pairs,
                if in_clause_chunk == 0 {
                    1
                } else {
                    in_clause_chunk as int
                },
            );
            let prewhere_clause = if tests.len() == 1 {
                tests[0]
            } else {
                "("@ + text::join(tests, " OR "@) + ")"@
            };
            sql::reads_as(slot_signatures_query(table, pairs, version_filter, settings_clause, in_clause_chunk), seq![
                "SELECT"@,
                TRANSACTION_SELECT_COLUMNS@,
                "FROM"@,
                table,
                "PREWHERE"@,
                prewhere_clause,
                "WHERE"@,
                version_filter,
                settings_clause,
            ])
        }),
{
    let tests = chunk_tests(
        pairs,
        if in_clause_chunk == 0 {
            1
        } else {
            in_clause_chunk as int
        },
    );
    let prewhere_clause = if tests.len() == 1 {
        tests[0]
    } else {
        "("@ + text::join(tests, " OR "@) + ")"@
    };
    let words = sql::first("SELECT"@);
    let words = sql::next(words, 12, TRANSACTION_SELECT_COLUMNS@);
    let words = sql::next(words, 9, "FROM"@);
    let words = sql::next(words, -1, table);
    let words = sql::next(words, 9, "PREWHERE"@);
    let words = sql::next(words, -1, prewhere_clause);
    let words = sql::next(words, 9, "WHERE"@);
    let words = sql::next(words, -1, version_filter);
    let words = sql::next(words, 9, settings_clause);
    assert(sql::reads_as(slot_signatures_query(table, pairs, version_filter, settings_clause, in_clause_chunk), words.1)) by {
        assert("SELECT
            "@ == "SELECT"@ + sql::gap(12)) by {
            reveal_strlit("SELECT
            ");
            reveal_strlit("SELECT");
        }
        assert("
         FROM "@ == sql::gap(9) + "FROM"@ + sql::gap(-1)) by {
            reveal_strlit("
         FROM ");
            reveal_strlit("FROM");
        }
        assert("
         PREWHERE "@ == sql::gap(9) + "PREWHERE"@ + sql::gap(-1)) by {
            reveal_strlit("
         PREWHERE ");
            reveal_strlit("PREWHERE");
        }
        assert("
         WHERE "@ == sql::gap(9) + "WHERE"@ + sql::gap(-1)) by {
            reveal_strlit("
         WHERE ");
            reveal_strlit("WHERE");
        }
        assert("
         "@ == sql::gap(9)) by {
            reveal_strlit("
         ");
        }
        broadcast use sql::lemma_joined_first;

        sql::lemma_same_text(slot_signatures_query(table, pairs, version_filter, settings_clause, in_clause_chunk), words);
    }
    assert(words.1 =~= seq![
        "SELECT"@,
        TRANSACTION_SELECT_COLUMNS@,
        "FROM"@,
        table,
        "PREWHERE"@,
        prewhere_clause,
        "WHERE"@,
        version_filter,
        settings_clause,
    ]);
}

/// The query for the transactions of a slot range.
pub open spec fn slot_range_query(
    table: Seq<char>,
    start_slot: u64,
    end_slot: u64,
    settings_clause: Seq<char>,
) -> Seq<char> {
    ("SELECT
            "@ + TRANSACTION_SELECT_COLUMNS@ + "
         FROM "@ + table + "
         PREWHERE
            intDiv(slot, "@ + text::dec(SLOT_SHARD_DIVISOR as nat) + ") BETWEEN "@ + text::dec((start_slot / SLOT_SHARD_DIVISOR) as nat) + " AND "@ + text::dec((end_slot / SLOT_SHARD_DIVISOR) as nat) + "
            AND slot BETWEEN "@ + text::dec(start_slot as nat) + " AND "@ + text::dec(end_slot as nat) + "
         ORDER BY slot ASC, slot_idx ASC, signature ASC
         LIMIT 1 BY signature
         "@ + settings_clause)
}

/// Builds the query for the transactions of a slot range, both ends taken in, in ledger order.
pub fn build_transactions_by_slot_range_query(
    transaction_table: &str,
    start_slot: u64,
    end_slot: u64,
    settings_clause: &str,
) -> (q: String)
    ensures
        q@ == slot_range_query(transaction_table@, start_slot, end_slot, settings_clause@),
{
    let mut m = "SELECT
            ".to_owned();
    m.append(TRANSACTION_SELECT_COLUMNS);
    m.append("
         FROM ");
    m.append(transaction_table);
    m.append("
         PREWHERE
            intDiv(slot, ");
    m.append(text::dec_string(SLOT_SHARD_DIVISOR as u64).as_str());
    m.append(") BETWEEN ");
    m.append(text::dec_string((start_slot / SLOT_SHARD_DIVISOR) as u64).as_str());
    m.append(" AND ");
    m.append(text::dec_string((end_slot / SLOT_SHARD_DIVISOR) as u64).as_str());
    m.append("
            AND slot BETWEEN ");
    m.append(text::dec_string(start_slot as u64).as_str());
    m.append(" AND ");
    m.append(text::dec_string(end_slot as u64).as_str());
    m.append("
         ORDER BY slot ASC, slot_idx ASC, signature ASC
         LIMIT 1 BY signature
         ");
    m.append(settings_clause);
    m
}

/// The transactions of a range are those between its two slots, both taken in, in the order of the
/// ledger, each once.
pub proof fn law_transactions_of_a_range_are_all_of_its_slots(
    table: Seq<char>,
    start_slot: u64,
    end_slot: u64,
    settings_clause: Seq<char>,
)
    ensures
        sql::reads_as(slot_range_query(table, start_slot, end_slot, settings_clause), seq![
            "SELECT"@,
            TRANSACTION_SELECT_COLUMNS@,
            "FROM"@,
            table,
            "PREWHERE"@,
            "intDiv(slot, "@ + text::dec(432000) + ") BETWEEN "@ + text::dec((start_slot / 432000) as nat) + " AND "@ + text::dec((end_slot / 432000) as nat),
            "AND"@,
            "slot BETWEEN "@ + text::dec(start_slot as nat) + " AND "@ + text::dec(end_slot as nat),
            "ORDER BY"@,
            "slot ASC, slot_idx ASC, signature ASC"@,
            "LIMIT 1 BY"@,
            "signature"@,
            settings_clause,
        ]),
{
    let words = sql::first("SELECT"@);
    let words = sql::next(words, 12, TRANSACTION_SELECT_COLUMNS@);
    let words = sql::next(words, 9, "FROM"@);
    let words = sql::next(words, -1, table);
    let words = sql::next(words, 9, "PREWHERE"@);
    let words = sql::next(words, 12, "intDiv(slot, "@ + text::dec(432000) + ") BETWEEN "@ + text::dec((start_slot / 432000) as nat) + " AND "@ + text::dec((end_slot / 432000) as nat));
    let words = sql::next(words, 12, "AND"@);
    let words = sql::next(words, -1, "slot BETWEEN "@ + text::dec(start_slot as nat) + " AND "@ + text::dec(end_slot as nat));
    let words = sql::next(words, 9, "ORDER BY"@);
    let words = sql::next(words, -1, "slot ASC, slot_idx ASC, signature ASC"@);
    let words = sql::next(words, 9, "LIMIT 1 BY"@);
    let words = sql::next(words, -1, "signature"@);
    let words = sql::next(words, 9, settings_clause);
    assert(sql::reads_as(slot_range_query(table, start_slot, end_slot, settings_clause), words.1)) by {
        assert("SELECT
            "@ == "SELECT"@ + sql::gap(12)) by {
            reveal_strlit("SELECT
            ");
            reveal_strlit("SELECT");
        }
        assert("
         FROM "@ == sql::gap(9) + "FROM"@ + sql::gap(-1)) by {
            reveal_strlit("
         FROM ");
            reveal_strlit("FROM");
        }
        assert("
         PREWHERE
            intDiv(slot, "@ == sql::gap(9) + "PREWHERE"@ + sql::gap(12) + "intDiv(slot, "@) by {
            reveal_strlit("
         PREWHERE
            intDiv(slot, ");
            reveal_strlit("PREWHERE");
            reveal_strlit("intDiv(slot, ");
        }
        assert("
            AND slot BETWEEN "@ == sql::gap(12) + "AND"@ + sql::gap(-1) + "slot BETWEEN "@) by {
            reveal_strlit("
            AND slot BETWEEN ");
            reveal_strlit("AND");
            reveal_strlit("slot BETWEEN ");
        }
        assert("
         ORDER BY slot ASC, slot_idx ASC, signature ASC
         LIMIT 1 BY signature
         "@ == sql::gap(9) + "ORDER BY"@ + sql::gap(-1) + "slot ASC, slot_idx ASC, signature ASC"@ + sql::gap(9) + "LIMIT 1 BY"@ + sql::gap(-1) + "signature"@ + sql::gap(9)) by {
            reveal_strlit("
         ORDER BY slot ASC, slot_idx ASC, signature ASC
         LIMIT 1 BY signature
         ");
            reveal_strlit("ORDER BY");
            reveal_strlit("slot ASC, slot_idx ASC, signature ASC");
            reveal_strlit("LIMIT 1 BY");
            reveal_strlit("signature");
        }
        broadcast use sql::lemma_joined_first;

        sql::lemma_same_text(slot_range_query(table, start_slot, end_slot, settings_clause), words);
    }
    assert(words.1 =~= seq![
        "SELECT"@,
        TRANSACTION_SELECT_COLUMNS@,
        "FROM"@,
        table,
        "PREWHERE"@,
        "intDiv(slot, "@ + text::dec(432000) + ") BETWEEN "@ + text::dec((start_slot / 432000) as nat) + " AND "@ + text::dec((end_slot / 432000) as nat),
        "AND"@,
        "slot BETWEEN "@ + text::dec(start_slot as nat) + " AND "@ + text::dec(end_slot as nat),
        "ORDER BY"@,
        "slot ASC, slot_idx ASC, signature ASC"@,
        "LIMIT 1 BY"@,
        "signature"@,
        settings_clause,
    ]);
}

/// A place is compared by its slot, and within the slot by its place in the block.
pub proof fn law_places_are_compared_by_slot_then_place(
    comparison: SlotIdxComparison,
    slot: int,
    slot_idx: int,
    at_slot: int,
    at_idx: int,
)
    ensures
        ({
            let met = sql::holds(comparison.slot_sign(), slot, at_slot) || (slot == at_slot && sql::holds(
                comparison.idx_sign(),
                slot_idx,
                at_idx,
            ));
            let older = slot < at_slot || (slot == at_slot && slot_idx < at_idx);
            let same = slot == at_slot && slot_idx == at_idx;
            met <==> match comparison {
                SlotIdxComparison::Lt => older,
                SlotIdxComparison::Lte => older || same,
                SlotIdxComparison::Gt => !older && !same,
                SlotIdxComparison::Gte => !older,
            }
        }),
{
    sql::lemma_signs();
}

/// A page goes on after its token in the order in which it is asked for: the rows below the token where
/// the order is descending, and those above it where it is ascending. The order that the query asks for
/// is descending in the first case and ascending in the second.
pub proof fn law_page_goes_on_after_the_token(
    sort_order: SortOrder,
    slot: int,
    slot_idx: int,
    at_slot: int,
    at_idx: int,
)
    ensures
        ({
            let comparison = page_comparison(sort_order);
            let asked_for = sql::holds(comparison.slot_sign(), slot, at_slot) || (slot == at_slot
                && sql::holds(comparison.idx_sign(), slot_idx, at_idx));
            let below = slot < at_slot || (slot == at_slot && slot_idx < at_idx);
            let above = slot > at_slot || (slot == at_slot && slot_idx > at_idx);
            &&& direction(sort_order) == "DESC"@ <==> sort_order is Desc
            &&& direction(sort_order) == "ASC"@ <==> sort_order is Asc
            &&& direction(sort_order) == "DESC"@ ==> (asked_for <==> below)
            &&& direction(sort_order) == "ASC"@ ==> (asked_for <==> above)
        }),
{
    sql::lemma_signs();
    assert("DESC"@ != "ASC"@) by {
        reveal_strlit("DESC");
        reveal_strlit("ASC");
        assert("DESC"@.len() == 4 && "ASC"@.len() == 3);
    }
}

/// A condition on a place compares the slot, and the place in the block only within the same slot.
pub proof fn law_place_conditions_say_both_comparisons(
    position: SignatureSlot,
    comparison: SlotIdxComparison,
)
    ensures
        ({
            let slot = text::dec(position.slot as nat);
            let idx = text::dec(position.slot_idx as nat);
            raw_position_condition(position, comparison) == match comparison {
                SlotIdxComparison::Lt => "(slot < "@ + slot + " OR (slot = "@ + slot + " AND slot_idx < "@
                    + idx + "))"@,
                SlotIdxComparison::Lte => "(slot < "@ + slot + " OR (slot = "@ + slot
                    + " AND slot_idx <= "@ + idx + "))"@,
                SlotIdxComparison::Gt => "(slot > "@ + slot + " OR (slot = "@ + slot + " AND slot_idx > "@
                    + idx + "))"@,
                SlotIdxComparison::Gte => "(slot > "@ + slot + " OR (slot = "@ + slot
                    + " AND slot_idx >= "@ + idx + "))"@,
            }
        }),
{
    let slot = text::dec(position.slot as nat);
    let idx = text::dec(position.slot_idx as nat);
    assert("(slot"@ + " < "@ == "(slot < "@) by {
        reveal_strlit("(slot");
        reveal_strlit(" < ");
        reveal_strlit("(slot < ");
    }
    assert("(slot"@ + " > "@ == "(slot > "@) by {
        reveal_strlit("(slot");
        reveal_strlit(" > ");
        reveal_strlit("(slot > ");
    }
    let front = "(slot"@ + comparison.slot_sign() + slot + " OR (slot = "@ + slot;
    let sign = comparison.idx_sign();
    assert(front + " AND slot_idx"@ + sign + idx + "))"@ =~= front + (" AND slot_idx"@ + sign) + idx
        + "))"@);
    assert(" AND slot_idx"@ + " < "@ == " AND slot_idx < "@) by {
        reveal_strlit(" AND slot_idx");
        reveal_strlit(" < ");
        reveal_strlit(" AND slot_idx < ");
    }
    assert(" AND slot_idx"@ + " <= "@ == " AND slot_idx <= "@) by {
        reveal_strlit(" AND slot_idx");
        reveal_strlit(" <= ");
        reveal_strlit(" AND slot_idx <= ");
    }
    assert(" AND slot_idx"@ + " > "@ == " AND slot_idx > "@) by {
        reveal_strlit(" AND slot_idx");
        reveal_strlit(" > ");
        reveal_strlit(" AND slot_idx > ");
    }
    assert(" AND slot_idx"@ + " >= "@ == " AND slot_idx >= "@) by {
        reveal_strlit(" AND slot_idx");
        reveal_strlit(" >= ");
        reveal_strlit(" AND slot_idx >= ");
    }
}

/// The same holds of a condition on expressions. Where they may be null, a null one admits every row.
pub proof fn law_place_expressions_say_both_comparisons(
    slot: Seq<char>,
    idx: Seq<char>,
    nullable: bool,
    comparison: SlotIdxComparison,
)
    ensures
        ({
            let front = if nullable {
                "(isNull("@ + slot + ") OR slot + toUInt64(0)"@
            } else {
                "(slot + toUInt64(0)"@
            };
            position_condition(slot, idx, nullable, comparison) == match comparison {
                SlotIdxComparison::Lt => front + " < "@ + slot + " OR (slot + toUInt64(0) = "@ + slot
                    + " AND slot_idx + toUInt32(0) < "@ + idx + "))"@,
                SlotIdxComparison::Lte => front + " < "@ + slot + " OR (slot + toUInt64(0) = "@ + slot
                    + " AND slot_idx + toUInt32(0) <= "@ + idx + "))"@,
                SlotIdxComparison::Gt => front + " > "@ + slot + " OR (slot + toUInt64(0) = "@ + slot
                    + " AND slot_idx + toUInt32(0) > "@ + idx + "))"@,
                SlotIdxComparison::Gte => front + " > "@ + slot + " OR (slot + toUInt64(0) = "@ + slot
                    + " AND slot_idx + toUInt32(0) >= "@ + idx + "))"@,
            }
        }),
{
    let at = " AND slot_idx + toUInt32(0)"@;
    let front = if nullable {
        "(isNull("@ + slot + ") OR slot + toUInt64(0)"@
    } else {
        "(slot + toUInt64(0)"@
    };
    assert(") OR "@ + "slot + toUInt64(0)"@ == ") OR slot + toUInt64(0)"@) by {
        reveal_strlit(") OR ");
        reveal_strlit("slot + toUInt64(0)");
        reveal_strlit(") OR slot + toUInt64(0)");
    }
    assert("("@ + "slot + toUInt64(0)"@ == "(slot + toUInt64(0)"@) by {
        reveal_strlit("(");
        reveal_strlit("slot + toUInt64(0)");
        reveal_strlit("(slot + toUInt64(0)");
    }
    assert(")"@ + ")"@ == "))"@) by {
        reveal_strlit(")");
        reveal_strlit("))");
    }
    assert(at + " < "@ == " AND slot_idx + toUInt32(0) < "@) by {
        reveal_strlit(" AND slot_idx + toUInt32(0)");
        reveal_strlit(" < ");
        reveal_strlit(" AND slot_idx + toUInt32(0) < ");
    }
    assert(at + " <= "@ == " AND slot_idx + toUInt32(0) <= "@) by {
        reveal_strlit(" AND slot_idx + toUInt32(0)");
        reveal_strlit(" <= ");
        reveal_strlit(" AND slot_idx + toUInt32(0) <= ");
    }
    assert(at + " > "@ == " AND slot_idx + toUInt32(0) > "@) by {
        reveal_strlit(" AND slot_idx + toUInt32(0)");
        reveal_strlit(" > ");
        reveal_strlit(" AND slot_idx + toUInt32(0) > ");
    }
    assert(at + " >= "@ == " AND slot_idx + toUInt32(0) >= "@) by {
        reveal_strlit(" AND slot_idx + toUInt32(0)");
        reveal_strlit(" >= ");
        reveal_strlit(" AND slot_idx + toUInt32(0) >= ");
    }
    let whole = front + comparison.slot_sign() + slot + " OR (slot + toUInt64(0) = "@ + slot + (at
        + comparison.idx_sign()) + idx + "))"@;
    assert(position_condition(slot, idx, nullable, comparison) == whole) by {
        broadcast use sql::lemma_joined_first;

        sql::lemma_equal(position_condition(slot, idx, nullable, comparison), whole);
    }
}

/// A filter sets one condition for each of its bounds and no other: equal to it, at least it, above it,
/// at most it, or below it.
pub proof fn law_each_bound_sets_its_condition<T: Decimal>(
    column: Seq<char>,
    filter: NumericFilter<T>,
    condition: Seq<char>,
)
    ensures
        numeric_conditions(column, filter).contains(condition) <==> {
            ||| filter.eq matches Some(v) && condition == column + " = "@ + v.decimal()
            ||| filter.gte matches Some(v) && condition == column + " >= "@ + v.decimal()
            ||| filter.gt matches Some(v) && condition == column + " > "@ + v.decimal()
            ||| filter.lte matches Some(v) && condition == column + " <= "@ + v.decimal()
            ||| filter.lt matches Some(v) && condition == column + " < "@ + v.decimal()
        },
{
    let c1 = bound(column, " = "@, filter.eq);
    let c2 = bound(column, " >= "@, filter.gte);
    let c3 = bound(column, " > "@, filter.gt);
    let c4 = bound(column, " <= "@, filter.lte);
    let c5 = bound(column, " < "@, filter.lt);
    lemma_bound_is_one(column, " = "@, filter.eq, condition);
    lemma_bound_is_one(column, " >= "@, filter.gte, condition);
    lemma_bound_is_one(column, " > "@, filter.gt, condition);
    lemma_bound_is_one(column, " <= "@, filter.lte, condition);
    lemma_bound_is_one(column, " < "@, filter.lt, condition);
    lemma_in_either(c1, c2, condition);
    lemma_in_either(c1 + c2, c3, condition);
    lemma_in_either(c1 + c2 + c3, c4, condition);
    lemma_in_either(c1 + c2 + c3 + c4, c5, condition);
}

proof fn lemma_bound_is_one<T: Decimal>(
    column: Seq<char>,
    sign: Seq<char>,
    value: Option<T>,
    condition: Seq<char>,
)
    ensures
        bound(column, sign, value).contains(condition) <==> (value matches Some(v) && condition == column
            + sign + v.decimal()),
{
    if let Some(v) = value {
        assert(bound(column, sign, value)[0] == column + sign + v.decimal());
    }
}

/// Two lists hold together what either holds.
proof fn lemma_in_either(a: Seq<Seq<char>>, b: Seq<Seq<char>>, text: Seq<char>)
    ensures
        (a + b).contains(text) <==> a.contains(text) || b.contains(text),
{
    if a.contains(text) {
        let i = a.index_of(text);
        assert((a + b)[i] == text);
    }
    if b.contains(text) {
        let i = b.index_of(text);
        assert((a + b)[a.len() + i] == text);
    }
    if (a + b).contains(text) {
        let i = (a + b).index_of(text);
        assert(if i < a.len() {
            a[i] == text
        } else {
            b[i - a.len()] == text
        });
    }
}

/// Every condition has to hold: each further one is joined by `AND`, and without any all rows pass.
pub proof fn law_all_conditions_have_to_hold(conditions: Seq<Seq<char>>, condition: Seq<char>)
    ensures
        where_text(Seq::empty()) == "1"@,
        where_text(seq![condition]) == condition,
        conditions.len() > 0 ==> where_text(conditions.push(condition)) == where_text(conditions)
            + " AND "@ + condition,
{
    let more = conditions.push(condition);
    assert(more.drop_last() =~= conditions);
    reveal_with_fuel(text::join, 2);
}

/// Transactions that succeeded are those without an error, those that failed have one, and otherwise
/// none is left out.
pub proof fn law_status_is_told_by_the_error(status: TransactionStatusFilter)
    ensures
        where_text(status_conditions(TransactionStatusFilter::Succeeded)) == "err IS NULL"@,
        where_text(status_conditions(TransactionStatusFilter::Failed)) == "err IS NOT NULL"@,
        status is Any <==> where_text(status_conditions(status)) == "1"@,
{
    reveal_strlit("err IS NULL");
    reveal_strlit("err IS NOT NULL");
    reveal_strlit("1");
    assert("err IS NULL"@.len() == 11 && "err IS NOT NULL"@.len() == 15 && "1"@.len() == 1);
    reveal_with_fuel(text::join, 2);
}

/// A page of a history holds what is older than one place and newer than another.
pub proof fn law_page_is_between_its_bounds(before: u64, until: u64, raw: bool)
    ensures
        page_text(None, None, raw) == "1"@,
        page_text(Some(SlotBoundary::Slot(before)), None, raw) == "slot < "@ + text::dec(before as nat),
        page_text(None, Some(SlotBoundary::Slot(until)), raw) == "slot > "@ + text::dec(until as nat),
        page_text(Some(SlotBoundary::Slot(before)), Some(SlotBoundary::Slot(until)), raw) == "slot < "@
            + text::dec(before as nat) + " AND "@ + ("slot > "@ + text::dec(until as nat)),
{
    assert("slot"@ + " < "@ == "slot < "@) by {
        reveal_strlit("slot");
        reveal_strlit(" < ");
        reveal_strlit("slot < ");
    }
    assert("slot"@ + " > "@ == "slot > "@) by {
        reveal_strlit("slot");
        reveal_strlit(" > ");
        reveal_strlit("slot > ");
    }
    let a = boundary_condition(Some(SlotBoundary::Slot(before)), SlotIdxComparison::Lt, raw);
    let b = boundary_condition(Some(SlotBoundary::Slot(until)), SlotIdxComparison::Gt, raw);
    let none = Seq::<Seq<char>>::empty();
    assert(none + none =~= none);
    assert(a + none =~= a);
    assert(none + b =~= b);
    assert((a + b).drop_last() =~= a);
    reveal_with_fuel(text::join, 3);
}

/// The same holds where the bounds are places: older than the one, and newer than the other.
pub proof fn law_page_is_between_its_places(before: SignatureSlot, until: SignatureSlot)
    ensures
        page_text(Some(SlotBoundary::Position(before)), Some(SlotBoundary::Position(until)), true)
            == raw_position_condition(before, SlotIdxComparison::Lt) + " AND "@ + raw_position_condition(
            until,
            SlotIdxComparison::Gt,
        ),
        page_text(Some(SlotBoundary::Position(before)), Some(SlotBoundary::Position(until)), false)
            == position_condition(
            text::dec(before.slot as nat),
            text::dec(before.slot_idx as nat),
            false,
            SlotIdxComparison::Lt,
        ) + " AND "@ + position_condition(
            text::dec(until.slot as nat),
            text::dec(until.slot_idx as nat),
            false,
            SlotIdxComparison::Gt,
        ),
        forall|raw: bool|
            #![trigger page_text(Some(SlotBoundary::Position(before)), None, raw)]
            page_text(Some(SlotBoundary::Position(before)), None, raw) == (if raw {
                raw_position_condition(before, SlotIdxComparison::Lt)
            } else {
                position_condition(
                    text::dec(before.slot as nat),
                    text::dec(before.slot_idx as nat),
                    false,
                    SlotIdxComparison::Lt,
                )
            }),
        forall|raw: bool|
            #![trigger page_text(None, Some(SlotBoundary::Position(until)), raw)]
            page_text(None, Some(SlotBoundary::Position(until)), raw) == (if raw {
                raw_position_condition(until, SlotIdxComparison::Gt)
            } else {
                position_condition(
                    text::dec(until.slot as nat),
                    text::dec(until.slot_idx as nat),
                    false,
                    SlotIdxComparison::Gt,
                )
            }),
{
    reveal_with_fuel(text::join, 3);
    let none = Seq::<Seq<char>>::empty();
    assert forall|raw: bool| true implies {
        let a = boundary_condition(Some(SlotBoundary::Position(before)), SlotIdxComparison::Lt, raw);
        let b = boundary_condition(Some(SlotBoundary::Position(until)), SlotIdxComparison::Gt, raw);
        &&& #[trigger] boundary_condition(
            Some(SlotBoundary::Position(before)),
            SlotIdxComparison::Lt,
            raw,
        ) + none == a
        &&& none + b == b
        &&& (a + b).drop_last() == a
        &&& (a + b).last() == b[0]
    } by {
        let a = boundary_condition(Some(SlotBoundary::Position(before)), SlotIdxComparison::Lt, raw);
        let b = boundary_condition(Some(SlotBoundary::Position(until)), SlotIdxComparison::Gt, raw);
        assert(a + none =~= a);
        assert(none + b =~= b);
        assert((a + b).drop_last() =~= a);
    }
}

/// A filter by places sets one condition for each of its bounds and no other: not before it, after it,
/// not after it, or before it.
pub proof fn law_each_place_sets_its_condition(
    filter: ResolvedSignatureFilter,
    condition: Seq<char>,
)
    ensures
        resolved_conditions(filter).contains(condition) <==> {
            ||| filter.gte matches Some(p) && condition == raw_position_condition(
                p,
                SlotIdxComparison::Gte,
            )
            ||| filter.gt matches Some(p) && condition == raw_position_condition(p, SlotIdxComparison::Gt)
            ||| filter.lte matches Some(p) && condition == raw_position_condition(
                p,
                SlotIdxComparison::Lte,
            )
            ||| filter.lt matches Some(p) && condition == raw_position_condition(p, SlotIdxComparison::Lt)
        },
{
    let c1 = raw_bound(filter.gte, SlotIdxComparison::Gte);
    let c2 = raw_bound(filter.gt, SlotIdxComparison::Gt);
    let c3 = raw_bound(filter.lte, SlotIdxComparison::Lte);
    let c4 = raw_bound(filter.lt, SlotIdxComparison::Lt);
    lemma_raw_bound_is_one(filter.gte, SlotIdxComparison::Gte, condition);
    lemma_raw_bound_is_one(filter.gt, SlotIdxComparison::Gt, condition);
    lemma_raw_bound_is_one(filter.lte, SlotIdxComparison::Lte, condition);
    lemma_raw_bound_is_one(filter.lt, SlotIdxComparison::Lt, condition);
    lemma_in_either(c1, c2, condition);
    lemma_in_either(c1 + c2, c3, condition);
    lemma_in_either(c1 + c2 + c3, c4, condition);
}

proof fn lemma_raw_bound_is_one(
    position: Option<SignatureSlot>,
    comparison: SlotIdxComparison,
    condition: Seq<char>,
)
    ensures
        raw_bound(position, comparison).contains(condition) <==> (position matches Some(p) && condition
            == raw_position_condition(p, comparison)),
{
    if let Some(p) = position {
        assert(raw_bound(position, comparison)[0] == raw_position_condition(p, comparison));
    }
}

/// The transactions of a hot address meet the status, every bound on the slot, every bound on the block
/// time and every bound on the place that are asked for, and come after the token of the page. Nothing
/// else is asked of them.
pub proof fn law_hot_transactions_meet_every_bound(
    query: TransactionsForAddressQuery,
    condition: Seq<char>,
)
    ensures
        hot_conditions(query).contains(condition) <==> {
            ||| query.status is Succeeded && condition == "err IS NULL"@
            ||| query.status is Failed && condition == "err IS NOT NULL"@
            ||| query.slot_filter matches Some(f) && numeric_conditions("slot"@, f).contains(condition)
            ||| query.block_time_filter matches Some(f) && numeric_conditions("block_time"@, f).contains(
                condition,
            )
            ||| query.resolved_signature_filter matches Some(f) && resolved_conditions(f).contains(
                condition,
            )
            ||| query.resolved_pagination matches Some(p) && condition == raw_position_condition(
                p,
                if query.sort_order is Desc {
                    SlotIdxComparison::Lt
                } else {
                    SlotIdxComparison::Gt
                },
            )
        },
{
    let none = Seq::<Seq<char>>::empty();
    let c1 = status_conditions(query.status);
    let c2 = opt_conditions("slot"@, query.slot_filter);
    let c3 = opt_conditions("block_time"@, query.block_time_filter);
    let c4 = match query.resolved_signature_filter {
        Some(filter) => resolved_conditions(filter),
        None => Seq::empty(),
    };
    let c5 = match query.resolved_pagination {
        Some(pagination) => seq![
            raw_position_condition(pagination, page_comparison(query.sort_order)),
        ],
        None => Seq::empty(),
    };
    lemma_in_either(c1, c2, condition);
    lemma_in_either(c1 + c2, c3, condition);
    lemma_in_either(c1 + c2 + c3, c4, condition);
    lemma_in_either(c1 + c2 + c3 + c4, c5, condition);
    assert(query.status is Succeeded ==> c1[0] == "err IS NULL"@);
    assert(query.status is Failed ==> c1[0] == "err IS NOT NULL"@);
    assert(query.resolved_pagination is Some ==> c5[0] == raw_position_condition(
        query.resolved_pagination->0,
        page_comparison(query.sort_order),
    ));
}

/// Each bound of a signature filter adds a condition on the place of its signature: not before it, after
/// it, not after it, or before it. What was asked for before stays.
pub proof fn law_each_signature_sets_its_condition(
    with_parts: Seq<Seq<char>>,
    conditions: Seq<Seq<char>>,
    table: Seq<char>,
    modulus: u64,
    filter: SignatureFilter,
    condition: Seq<char>,
)
    ensures
        add_signature_filter(Ok((with_parts, conditions)), table, modulus, filter) matches Ok((parts, all))
            ==> {
            &&& with_parts.is_prefix_of(parts)
            &&& all.contains(condition) <==> {
                ||| conditions.contains(condition)
                ||| filter.gte is Some && condition == position_condition(
                    "sig_gte_slot"@,
                    "sig_gte_idx"@,
                    true,
                    SlotIdxComparison::Gte,
                )
                ||| filter.gt is Some && condition == position_condition(
                    "sig_gt_slot"@,
                    "sig_gt_idx"@,
                    true,
                    SlotIdxComparison::Gt,
                )
                ||| filter.lte is Some && condition == position_condition(
                    "sig_lte_slot"@,
                    "sig_lte_idx"@,
                    true,
                    SlotIdxComparison::Lte,
                )
                ||| filter.lt is Some && condition == position_condition(
                    "sig_lt_slot"@,
                    "sig_lt_idx"@,
                    true,
                    SlotIdxComparison::Lt,
                )
            }
        },
{
    let c0: Clauses = Ok((with_parts, conditions));
    let c1 = add_signature(
        c0,
        table,
        modulus,
        sharding::opt_text(filter.gte),
        "sig_gte"@,
        SlotIdxComparison::Gte,
    );
    let c2 = add_signature(
        c1,
        table,
        modulus,
        sharding::opt_text(filter.gt),
        "sig_gt"@,
        SlotIdxComparison::Gt,
    );
    let c3 = add_signature(
        c2,
        table,
        modulus,
        sharding::opt_text(filter.lte),
        "sig_lte"@,
        SlotIdxComparison::Lte,
    );
    let slot = "_slot"@;
    let idx = "_idx"@;
    reveal_strlit("_slot");
    reveal_strlit("_idx");
    assert("sig_gte"@ + slot == "sig_gte_slot"@ && "sig_gte"@ + idx == "sig_gte_idx"@) by {
        reveal_strlit("sig_gte");
        reveal_strlit("sig_gte_slot");
        reveal_strlit("sig_gte_idx");
    }
    assert("sig_gt"@ + slot == "sig_gt_slot"@ && "sig_gt"@ + idx == "sig_gt_idx"@) by {
        reveal_strlit("sig_gt");
        reveal_strlit("sig_gt_slot");
        reveal_strlit("sig_gt_idx");
    }
    assert("sig_lte"@ + slot == "sig_lte_slot"@ && "sig_lte"@ + idx == "sig_lte_idx"@) by {
        reveal_strlit("sig_lte");
        reveal_strlit("sig_lte_slot");
        reveal_strlit("sig_lte_idx");
    }
    assert("sig_lt"@ + slot == "sig_lt_slot"@ && "sig_lt"@ + idx == "sig_lt_idx"@) by {
        reveal_strlit("sig_lt");
        reveal_strlit("sig_lt_slot");
        reveal_strlit("sig_lt_idx");
    }
    lemma_signature_adds(c0, table, modulus, sharding::opt_text(filter.gte), "sig_gte"@, SlotIdxComparison::Gte, condition);
    lemma_signature_adds(c1, table, modulus, sharding::opt_text(filter.gt), "sig_gt"@, SlotIdxComparison::Gt, condition);
    lemma_signature_adds(c2, table, modulus, sharding::opt_text(filter.lte), "sig_lte"@, SlotIdxComparison::Lte, condition);
    lemma_signature_adds(c3, table, modulus, sharding::opt_text(filter.lt), "sig_lt"@, SlotIdxComparison::Lt, condition);
}

/// A signature adds one condition on its place, where there is one.
proof fn lemma_signature_adds(
    clauses: Clauses,
    table: Seq<char>,
    modulus: u64,
    signature: Option<Seq<char>>,
    prefix: Seq<char>,
    comparison: SlotIdxComparison,
    condition: Seq<char>,
)
    ensures
        add_signature(clauses, table, modulus, signature, prefix, comparison) matches Ok((parts, all)) ==> {
            &&& clauses is Ok
            &&& clauses->Ok_0.0.is_prefix_of(parts)
            &&& all.contains(condition) <==> {
                ||| clauses->Ok_0.1.contains(condition)
                ||| signature is Some && condition == position_condition(
                    prefix + "_slot"@,
                    prefix + "_idx"@,
                    true,
                    comparison,
                )
            }
        },
{
    if let (Ok((with_parts, conditions)), Some(sig)) = (clauses, signature) {
        let added = position_condition(prefix + "_slot"@, prefix + "_idx"@, true, comparison);
        assert(conditions.push(added) =~= conditions + seq![added]);
        lemma_in_either(conditions, seq![added], condition);
        assert(seq![added][0] == added);
    }
}

/// The transactions of an address meet the status, every bound on the slot, every bound on the block
/// time and every bound on the place that are asked for, and come after the token of the page. Nothing
/// else is asked of them.
pub proof fn law_transactions_meet_every_bound(
    table: Seq<char>,
    modulus: u64,
    query: TransactionsForAddressQuery,
    condition: Seq<char>,
)
    ensures
        transactions_clauses(table, modulus, query) matches Ok((parts, all)) ==> {
            let after = if query.sort_order is Desc {
                SlotIdxComparison::Lt
            } else {
                SlotIdxComparison::Gt
            };
            all.contains(condition) <==> {
                ||| query.status is Succeeded && condition == "err IS NULL"@
                ||| query.status is Failed && condition == "err IS NOT NULL"@
                ||| query.slot_filter matches Some(f) && numeric_conditions(
                    "slot + toUInt64(0)"@,
                    f,
                ).contains(condition)
                ||| query.block_time_filter matches Some(f) && numeric_conditions(
                    "block_time"@,
                    f,
                ).contains(condition)
                ||| query.signature_filter matches Some(f) && {
                    ||| f.gte is Some && condition == position_condition(
                        "sig_gte_slot"@,
                        "sig_gte_idx"@,
                        true,
                        SlotIdxComparison::Gte,
                    )
                    ||| f.gt is Some && condition == position_condition(
                        "sig_gt_slot"@,
                        "sig_gt_idx"@,
                        true,
                        SlotIdxComparison::Gt,
                    )
                    ||| f.lte is Some && condition == position_condition(
                        "sig_lte_slot"@,
                        "sig_lte_idx"@,
                        true,
                        SlotIdxComparison::Lte,
                    )
                    ||| f.lt is Some && condition == position_condition(
                        "sig_lt_slot"@,
                        "sig_lt_idx"@,
                        true,
                        SlotIdxComparison::Lt,
                    )
                }
                ||| query.pagination matches Some(PaginationToken::SlotIndex { slot, idx }) && condition
                    == position_condition(text::dec(slot as nat), text::dec(idx as nat), false, after)
                ||| query.pagination matches Some(PaginationToken::Signature(sig)) && condition
                    == position_condition("page_slot"@, "page_idx"@, true, after)
            }
        },
{
    let c1 = status_conditions(query.status);
    let c2 = opt_conditions("slot + toUInt64(0)"@, query.slot_filter);
    let c3 = opt_conditions("block_time"@, query.block_time_filter);
    lemma_in_either(c1, c2, condition);
    lemma_in_either(c1 + c2, c3, condition);
    assert(query.status is Succeeded ==> c1[0] == "err IS NULL"@);
    assert(query.status is Failed ==> c1[0] == "err IS NOT NULL"@);
    let none = Seq::<Seq<char>>::empty();
    let start: Clauses = Ok((none, c1 + c2 + c3));
    let filtered = match query.signature_filter {
        Some(filter) => add_signature_filter(start, table, modulus, filter),
        None => start,
    };
    if let Some(filter) = query.signature_filter {
        law_each_signature_sets_its_condition(none, c1 + c2 + c3, table, modulus, filter, condition);
    }
    assert("page"@ + "_slot"@ == "page_slot"@ && "page"@ + "_idx"@ == "page_idx"@) by {
        reveal_strlit("page");
        reveal_strlit("_slot");
        reveal_strlit("_idx");
        reveal_strlit("page_slot");
        reveal_strlit("page_idx");
    }
    match query.pagination {
        Some(PaginationToken::SlotIndex { slot, idx }) => {
            if let Ok((parts, conditions)) = filtered {
                let added = position_condition(
                    text::dec(slot as nat),
                    text::dec(idx as nat),
                    false,
                    page_comparison(query.sort_order),
                );
                assert(conditions.push(added) =~= conditions + seq![added]);
                lemma_in_either(conditions, seq![added], condition);
                assert(seq![added][0] == added);
            }
        },
        Some(PaginationToken::Signature(sig)) => {
            lemma_signature_adds(
                filtered,
                table,
                modulus,
                Some(sig@),
                "page"@,
                page_comparison(query.sort_order),
                condition,
            );
        },
        None => {},
    }
}

/// Every pair that is asked for stands in exactly one test: the tests take the pairs in order, as many
/// as they may hold, and the last takes what is left.
pub proof fn law_tests_take_all_pairs(pairs: Seq<(u64, String)>, n: int, k: int)
    requires
        n > 0,
        0 <= k,
    ensures
        k < chunk_tests(pairs, n).len() <==> k * n < pairs.len(),
        k * n < pairs.len() ==> chunk_tests(pairs, n)[k] == "(slot, signature) IN ("@ + text::join(
            pair_texts(
                pairs.subrange(
                    k * n,
                    if (k + 1) * n < pairs.len() {
                        (k + 1) * n
                    } else {
                        pairs.len() as int
                    },
                ),
            ),
            ", "@,
        ) + ")"@,
    decreases pairs.len(),
{
    assert(k * n >= 0 && (k + 1) * n == k * n + n) by (nonlinear_arith)
        requires
            n > 0,
            k >= 0,
    ;
    if pairs.len() > 0 {
        if k > 0 {
            assert(k * n >= n && (k - 1) * n == k * n - n) by (nonlinear_arith)
                requires
                    n > 0,
                    k > 0,
            ;
        }
        if pairs.len() <= n {
            assert(pairs.subrange(0, pairs.len() as int) =~= pairs);
        } else {
            let rest = pairs.skip(n);
            assert(pairs.take(n) =~= pairs.subrange(0, n));
            if k > 0 {
                law_tests_take_all_pairs(rest, n, k - 1);
                let from = (k - 1) * n;
                assert(k * n == from + n);
                if from < rest.len() {
                    let to = if from + n < rest.len() {
                        from + n
                    } else {
                        rest.len() as int
                    };
                    assert(rest.subrange(from, to) =~= pairs.subrange(from + n, to + n));
                }
            } else {
                law_tests_take_all_pairs(rest, n, 0);
            }
        }
    }
}

/// A signature is looked for in its bucket, and its newest place is taken.
pub proof fn law_place_of_a_signature_is_its_newest(
    table: Seq<char>,
    bucket: u64,
    bytes: Seq<u8>,
    prefix: Seq<char>,
)
    ensures
        ({
            let parts = signature_with_parts(table, bucket, bytes, prefix);
            let newest = " PREWHERE sig_bucket = "@ + prefix + "_bucket AND signature = "@ + prefix
                + "_sig ORDER BY slot DESC, slot_idx DESC LIMIT 1) AS "@;
            &&& parts.len() == 4
            &&& parts[0] == "toFixedString(unhex('"@ + text::hex_upper(bytes) + "'), 64) AS "@ + prefix
                + "_sig"@
            &&& parts[1] == text::dec(bucket as nat) + " AS "@ + prefix + "_bucket"@
            &&& parts[2] == "(SELECT CAST(slot AS Nullable(UInt64)) FROM "@ + table + newest + prefix
                + "_slot"@
            &&& parts[3] == "(SELECT CAST(slot_idx AS Nullable(UInt32)) FROM "@ + table + newest + prefix
                + "_idx"@
        }),
{
    broadcast use sql::lemma_joined_first;

}

/// The bucket of a signature is the remainder of its hash, and so one of the buckets that there are. A
/// signature has 64 bytes.
pub proof fn law_signature_falls_into_a_bucket(
    bytes: Seq<u8>,
    modulus: u64,
    decoded: Option<Seq<u8>>,
)
    requires
        modulus > 0,
    ensures
        signature_bucket(bytes, modulus) < modulus,
        signature_bucket(bytes, modulus) == hashing::cityhash(bytes) % modulus,
        signature_bytes_error(decoded) is None <==> (decoded matches Some(b) && b.len() == 64),
{
}

/// A filter looks for signatures exactly where one of its bounds is one.
pub proof fn law_filter_looks_for_its_bounds(filter: SignatureFilter)
    ensures
        !filter_has_signature(filter) <==> filter.gte is None && filter.gt is None && filter.lte is None
            && filter.lt is None,
{
}

/// A pair is asked for by its slot and its signature.
pub proof fn law_pairs_are_asked_for_by_slot_and_signature(pairs: Seq<(u64, String)>, i: int)
    requires
        0 <= i < pairs.len(),
    ensures
        pair_texts(pairs).len() == pairs.len(),
        pair_texts(pairs)[i] == "("@ + text::dec(pairs[i].0 as nat) + ", "@ + pairs[i].1@ + ")"@,
{
}

} // verus!
