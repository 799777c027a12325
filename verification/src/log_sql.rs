//! How the block log is laid out in SQL: the query a [`LogFilter`] turns
//! into, the row an entry is stored as, and how a stored row is read back.
//! Running the statements is the database's business.

use vstd::prelude::*;
use crate::direction::Direction;
use crate::log_entry::{LogEntry, LogFilter, LogFilterView, LogRecord};
use crate::storage::StorageError;
use crate::text::{chars_of, concat_str, str_eq, str_eq_ignore_ascii_case, str_to_lowercase, string_of, string_push, unicode_lowercase};

verus! {

/// `uuid::Error`, carried through opaquely.
#[verifier::external_type_specification]
#[verifier::external_body]
pub struct ExUuidError(uuid::Error);

/// The 32 lower-case hex digits of `x`, most significant first.
pub open spec fn hex32(x: u128) -> Seq<char> {
    Seq::new(32, |k: int| crate::protocol::hex_char(((x as int / pow16(31 - k)) % 16) as nat))
}

/// `16` to the power `n`.
pub open spec fn pow16(n: int) -> int
    decreases n,
{
    if n <= 0 {
        1
    } else {
        16 * pow16(n - 1)
    }
}

/// The hyphenated form of a UUID held as a `u128`: its 32 hex digits in
/// groups of 8, 4, 4, 4 and 12, joined by `-`.
pub open spec fn uuid_text(x: u128) -> Seq<char> {
    let h = hex32(x);
    h.subrange(0, 8) + seq!['-'] + h.subrange(8, 12) + seq!['-'] + h.subrange(12, 16) + seq!['-']
        + h.subrange(16, 20) + seq!['-'] + h.subrange(20, 32)
}

/// The value of a hexadecimal digit, either case.
pub open spec fn hex_digit_value(c: char) -> Option<nat> {
    if '0' <= c && c <= '9' {
        Some((c as int - 48) as nat)
    } else if 'a' <= c && c <= 'f' {
        Some((c as int - 87) as nat)
    } else if 'A' <= c && c <= 'F' {
        Some((c as int - 55) as nat)
    } else {
        None
    }
}

/// The number the hexadecimal digits `s` spell, most significant first, or
/// `None` if one of them is not a digit.
pub open spec fn hex_value(s: Seq<char>) -> Option<nat>
    decreases s.len(),
{
    if s.len() == 0 {
        Some(0)
    } else {
        match (hex_value(s.drop_last()), hex_digit_value(s.last())) {
            (Some(a), Some(d)) => Some(a * 16 + d),
            _ => None,
        }
    }
}

/// The 32 digits of an 8-4-4-4-12 hyphenated form, if `s` has that shape.
pub open spec fn hyphenated_digits(s: Seq<char>) -> Option<Seq<char>> {
    if s.len() == 36 && s[8] == '-' && s[13] == '-' && s[18] == '-' && s[23] == '-' {
        Some(
            s.subrange(0, 8) + s.subrange(9, 13) + s.subrange(14, 18) + s.subrange(19, 23)
                + s.subrange(24, 36),
        )
    } else {
        None
    }
}

/// The 32 digits of a UUID text in one of the forms `Uuid::parse_str`
/// reads: simple (32 digits), hyphenated, braced (`{..}` around the
/// hyphenated form), or URN (`urn:uuid:`, in any case, before it).
pub open spec fn uuid_digits(s: Seq<char>) -> Option<Seq<char>> {
    if s.len() == 32 {
        Some(s)
    } else if s.len() == 36 {
        hyphenated_digits(s)
    } else if s.len() == 38 && s[0] == '{' && s[37] == '}' {
        hyphenated_digits(s.subrange(1, 37))
    } else if s.len() == 45 && str_eq_ignore_ascii_case(s.subrange(0, 9), "urn:uuid:"@) {
        hyphenated_digits(s.subrange(9, 45))
    } else {
        None
    }
}

/// The UUID `Uuid::parse_str` reads from `s`, as a `u128` (its bytes most
/// significant first), or `None` where it rejects `s`.
pub open spec fn uuid_parse(s: Seq<char>) -> Option<u128> {
    match uuid_digits(s) {
        Some(d) => match hex_value(d) {
            Some(v) => Some(v as u128),
            None => None,
        },
        None => None,
    }
}

/// The digits `hex32(x)` spell `x`, read a prefix at a time.
proof fn lemma_hex32_prefix_value(x: u128, k: int)
    requires
        0 <= k <= 32,
    ensures
        hex_value(hex32(x).take(k)) == Some((x as int / pow16(32 - k)) as nat),
    decreases k,
{
    if k == 0 {
        assert(hex32(x).take(0) =~= Seq::<char>::empty());
        assert(pow16(32) == 0x1_0000_0000_0000_0000_0000_0000_0000_0000) by {
            reveal_with_fuel(pow16, 33);
        }
        vstd::arithmetic::div_mod::lemma_basic_div(x as int, pow16(32));
    } else {
        lemma_hex32_prefix_value(x, k - 1);
        let m = pow16(32 - k);
        lemma_pow16_positive(32 - k);
        let q = x as int / m;
        let d = q % 16;
        assert(hex32(x).take(k).drop_last() =~= hex32(x).take(k - 1));
        assert(hex32(x).take(k).last() == crate::protocol::hex_char(d as nat));
        lemma_hex_char_value(d as nat);
        assert(pow16(32 - (k - 1)) == 16 * m);
        vstd::arithmetic::div_mod::lemma_div_denominator(x as int, m, 16);
        assert(m * 16 == 16 * m) by (nonlinear_arith);
        vstd::arithmetic::div_mod::lemma_fundamental_div_mod(q, 16);
        assert(q >= 0) by {
            vstd::arithmetic::div_mod::lemma_div_pos_is_pos(x as int, m);
        }
    }
}

/// Powers of 16 are positive.
proof fn lemma_pow16_positive(n: int)
    ensures
        pow16(n) > 0,
    decreases n,
{
    if n > 0 {
        lemma_pow16_positive(n - 1);
    }
}

/// A digit's lower-case hexadecimal character reads back as the digit.
proof fn lemma_hex_char_value(d: nat)
    requires
        d < 16,
    ensures
        hex_digit_value(crate::protocol::hex_char(d)) == Some(d),
{
}

/// The hyphenated text of a UUID reads back as the same UUID.
pub proof fn law_uuid_text_reads_back(x: u128)
    ensures
        uuid_parse(uuid_text(x)) == Some(x),
{
    let h = hex32(x);
    let t = uuid_text(x);
    assert(t.len() == 36);
    assert(t[8] == '-' && t[13] == '-' && t[18] == '-' && t[23] == '-');
    assert(t.subrange(0, 8) + t.subrange(9, 13) + t.subrange(14, 18) + t.subrange(19, 23)
        + t.subrange(24, 36) =~= h);
    lemma_hex32_prefix_value(x, 32);
    assert(h.take(32) =~= h);
    assert(pow16(0) == 1);
}

/// `Uuid::from_u128(id).to_string()`: the hyphenated lower-case form.
#[verifier::external_body]
pub(crate) fn uuid_string(id: u128) -> (r: String)
    ensures
        r@ == uuid_text(id),
{
    uuid::Uuid::from_u128(id).to_string()
}

/// `Uuid::parse_str`, with the result as a `u128`: it accepts exactly the
/// simple, hyphenated, braced and URN forms of 32 hexadecimal digits (either
/// case), and reads the digits most significant first.
#[verifier::external_body]
pub(crate) fn parse_uuid(s: &str) -> (r: Result<u128, uuid::Error>)
    ensures
        r is Ok <==> uuid_parse(s@) is Some,
        r matches Ok(v) ==> uuid_parse(s@) == Some(v),
{
    match uuid::Uuid::parse_str(s) {
        Ok(u) => Ok(u.as_u128()),
        Err(e) => Err(e),
    }
}

/// The `Display` text of a `uuid::Error`. Nothing is stated of the text.
#[verifier::external_body]
fn uuid_error_text(e: &uuid::Error) -> String {
    e.to_string()
}

/// A value bound to a `?` placeholder.
#[derive(Debug, Clone, PartialEq)]
pub enum SqlValue {
    /// An SQL `INTEGER`.
    Integer(i64),
    /// An SQL `TEXT`.
    Text(String),
    /// An SQL `BLOB`.
    Blob(Vec<u8>),
}

/// The mathematical content of a [`SqlValue`].
pub enum SqlValueView {
    Integer(i64),
    Text(Seq<char>),
    Blob(Seq<u8>),
}

impl View for SqlValue {
    type V = SqlValueView;

    open spec fn view(&self) -> SqlValueView {
        match self {
            SqlValue::Integer(n) => SqlValueView::Integer(*n),
            SqlValue::Text(s) => SqlValueView::Text(s@),
            SqlValue::Blob(b) => SqlValueView::Blob(b@),
        }
    }
}

/// The views of a list of bound values.
pub open spec fn values_view(v: Seq<SqlValue>) -> Seq<SqlValueView> {
    v.map_values(|x: SqlValue| x@)
}

/// A statement with its bound values, in placeholder order.
pub struct LogQuery {
    /// The SQL text.
    pub sql: String,
    /// One value per `?` of `sql`, in order.
    pub params: Vec<SqlValue>,
}

/// `n` placeholders separated by `", "`.
pub open spec fn placeholders(n: nat) -> Seq<char>
    decreases n,
{
    if n == 0 {
        Seq::empty()
    } else if n == 1 {
        "?"@
    } else {
        placeholders((n - 1) as nat) + ", ?"@
    }
}

/// `parts` joined with `sep` between consecutive parts.
pub open spec fn join_with(parts: Seq<Seq<char>>, sep: Seq<char>) -> Seq<char>
    decreases parts.len(),
{
    if parts.len() == 0 {
        Seq::empty()
    } else if parts.len() == 1 {
        parts[0]
    } else {
        join_with(parts.drop_last(), sep) + sep + parts.last()
    }
}

/// The column list and table every log query starts with.
pub open spec fn log_select() -> Seq<char> {
    "SELECT id, ts, service, direction, filter_id, rule_kind, dry_run, reason, sample\n             FROM block_log"@
}

/// `c` with `s` appended when `cond` holds.
pub open spec fn opt_push(c: Seq<Seq<char>>, cond: bool, s: Seq<char>) -> Seq<Seq<char>> {
    if cond {
        c.push(s)
    } else {
        c
    }
}

/// The `WHERE` conditions a filter turns into, in order: services,
/// directions, kinds, filter id, dry-run flag, search, since, until.
pub open spec fn log_clauses(f: LogFilterView) -> Seq<Seq<char>> {
    let c1 = opt_push(
        Seq::empty(),
        f.services.len() > 0,
        "service IN ("@ + placeholders(f.services.len()) + ")"@,
    );
    let c2 = opt_push(
        c1,
        f.directions.len() > 0,
        "direction IN ("@ + placeholders(f.directions.len()) + ")"@,
    );
    let c3 = opt_push(c2, f.kinds.len() > 0, "rule_kind IN ("@ + placeholders(f.kinds.len()) + ")"@);
    let c4 = opt_push(c3, f.filter_id is Some, "filter_id = ?"@);
    let c5 = opt_push(c4, f.dry_run_only is Some, "dry_run = ?"@);
    let c6 = opt_push(
        c5,
        f.search is Some,
        "(LOWER(reason) LIKE ? ESCAPE '\\' OR LOWER(CAST(sample AS TEXT)) LIKE ? ESCAPE '\\')"@,
    );
    let c7 = opt_push(c6, f.since_ms is Some, "ts >= ?"@);
    opt_push(c7, f.until_ms is Some, "ts < ?"@)
}

/// The SQL text of the query for filter `f`.
pub open spec fn log_query_sql(f: LogFilterView) -> Seq<char> {
    let clauses = log_clauses(f);
    log_select() + (if clauses.len() > 0 {
        " WHERE "@ + join_with(clauses, " AND "@)
    } else {
        Seq::empty()
    }) + " ORDER BY id DESC LIMIT ?"@
}

/// A text value for each string of `v`.
pub open spec fn texts(v: Seq<Seq<char>>) -> Seq<SqlValueView> {
    v.map_values(|s: Seq<char>| SqlValueView::Text(s))
}

/// A text value holding the name of each direction of `v`.
pub open spec fn direction_texts(v: Seq<Direction>) -> Seq<SqlValueView> {
    v.map_values(|d: Direction| SqlValueView::Text(d.spec_name()))
}

/// Whether `c` has a meaning of its own in a `LIKE` pattern escaped with `\`.
pub open spec fn like_special(c: char) -> bool {
    c == '\\' || c == '%' || c == '_'
}

/// `s` as a literal in a `LIKE` pattern: each `\`, `%` and `_` preceded by
/// the escape character `\`, every other character kept.
pub open spec fn like_escape(s: Seq<char>) -> Seq<char>
    decreases s.len(),
{
    if s.len() == 0 {
        Seq::empty()
    } else {
        let c = s.last();
        like_escape(s.drop_last()) + if like_special(c) {
            seq!['\\', c]
        } else {
            seq![c]
        }
    }
}

/// The `LIKE` pattern a search needle turns into: its lower-case form,
/// escaped so that it matches only itself, between `%` wildcards. With the
/// query's `ESCAPE '\'` this is a plain substring match.
pub open spec fn like_pattern(needle: Seq<char>) -> Seq<char> {
    "%"@ + like_escape(unicode_lowercase(needle)) + "%"@
}

/// Append `t` escaped as a `LIKE` literal.
fn push_like_escaped(out: &mut String, t: &str)
    ensures
        final(out)@ == old(out)@ + like_escape(t@),
{
    let cs = chars_of(t);
    let ghost start = out@;
    let mut i: usize = 0;
    while i < cs.len()
        invariant
            i <= cs@.len(),
            cs@ == t@,
            out@ == start + like_escape(t@.take(i as int)),
        decreases cs.len() - i,
    {
        let c = cs[i];
        let ghost before = out@;
        if c == '\\' || c == '%' || c == '_' {
            string_push(out, '\\');
        }
        string_push(out, c);
        proof {
            assert(t@.take(i + 1).drop_last() =~= t@.take(i as int));
            assert(t@.take(i + 1).last() == c);
            if like_special(c) {
                assert(out@ =~= before + seq!['\\', c]);
            } else {
                assert(out@ =~= before + seq![c]);
            }
            assert(out@ =~= start + like_escape(t@.take(i + 1)));
        }
        i += 1;
    }
    assert(t@.take(cs@.len() as int) =~= t@);
}

/// The values bound to the query for filter `f` and `limit`, in placeholder
/// order; the limit is bound as an `i64`.
pub open spec fn log_query_params(f: LogFilterView, limit: usize) -> Seq<SqlValueView> {
    texts(f.services) + direction_texts(f.directions) + texts(f.kinds) + tail_params(f, limit)
}

/// Append `n` placeholders separated by `", "`.
fn push_placeholders(s: &mut String, n: usize)
    requires
        n > 0,
    ensures
        final(s)@ == old(s)@ + placeholders(n as nat),
{
    proof {
        reveal_strlit("?");
        reveal_strlit(", ?");
    }
    string_push(s, '?');
    let mut i: usize = 1;
    proof {
        assert(s@ =~= old(s)@ + placeholders(1));
    }
    while i < n
        invariant
            1 <= i <= n,
            s@ == old(s)@ + placeholders(i as nat),
        decreases n - i,
    {
        s.append(", ?");
        proof {
            assert(placeholders((i + 1) as nat) == placeholders(i as nat) + ", ?"@);
            assert(s@ =~= old(s)@ + placeholders((i + 1) as nat));
        }
        i += 1;
    }
}

/// `"<column> IN (?, ?, ...)"` with `n` placeholders.
fn in_clause(column: &str, n: usize) -> (r: String)
    requires
        n > 0,
    ensures
        r@ == column@ + " IN ("@ + placeholders(n as nat) + ")"@,
{
    let mut s = concat_str(column, " IN (");
    push_placeholders(&mut s, n);
    s.append(")");
    s
}

/// Append a text value for each string of `v`.
fn push_texts(params: &mut Vec<SqlValue>, v: &Vec<String>)
    ensures
        values_view(final(params)@) == values_view(old(params)@) + texts(
            v@.map_values(|s: String| s@),
        ),
{
    let ghost start = values_view(params@);
    let mut i: usize = 0;
    while i < v.len()
        invariant
            i <= v@.len(),
            values_view(params@) == start + texts(v@.map_values(|s: String| s@).take(i as int)),
        decreases v.len() - i,
    {
        let ghost before = values_view(params@);
        params.push(SqlValue::Text(string_of(v[i].as_str())));
        proof {
            let vs = v@.map_values(|s: String| s@);
            assert(values_view(params@) =~= before.push(SqlValueView::Text(v@[i as int]@)));
            assert(texts(vs.take(i + 1)) =~= texts(vs.take(i as int)).push(
                SqlValueView::Text(vs[i as int]),
            ));
            assert(values_view(params@) =~= start + texts(vs.take(i + 1)));
        }
        i += 1;
    }
    proof {
        let vs = v@.map_values(|s: String| s@);
        assert(vs.take(i as int) =~= vs);
    }
}

/// Append the query text of `parts` joined by `" AND "`.
fn push_joined(s: &mut String, parts: &Vec<String>)
    ensures
        final(s)@ == old(s)@ + join_with(parts@.map_values(|p: String| p@), " AND "@),
{
    let ghost ps = parts@.map_values(|p: String| p@);
    let mut i: usize = 0;
    proof {
        assert(ps.take(0) =~= Seq::<Seq<char>>::empty());
        assert(s@ =~= old(s)@ + join_with(ps.take(0), " AND "@));
    }
    while i < parts.len()
        invariant
            i <= parts@.len(),
            ps == parts@.map_values(|p: String| p@),
            s@ == old(s)@ + join_with(ps.take(i as int), " AND "@),
        decreases parts.len() - i,
    {
        let ghost before = s@;
        if i > 0 {
            s.append(" AND ");
        }
        s.append(parts[i].as_str());
        proof {
            let t = ps.take(i + 1);
            assert(t.drop_last() =~= ps.take(i as int));
            assert(t.last() == parts@[i as int]@);
            if i == 0 {
                assert(join_with(t, " AND "@) == t[0]);
            }
            assert(s@ =~= old(s)@ + join_with(t, " AND "@));
        }
        i += 1;
    }
    proof {
        assert(ps.take(i as int) =~= ps);
    }
}

/// The views of a list of strings.
pub open spec fn strs(v: Seq<String>) -> Seq<Seq<char>> {
    v.map_values(|p: String| p@)
}

/// Append `s` to `clauses` when `cond` holds.
fn push_clause_if(clauses: &mut Vec<String>, cond: bool, s: String)
    ensures
        strs(final(clauses)@) == opt_push(strs(old(clauses)@), cond, s@),
{
    if cond {
        clauses.push(s);
        proof {
            assert(strs(clauses@) =~= strs(old(clauses)@).push(s@));
        }
    }
}

/// The `WHERE` conditions of the query for `filter`.
fn query_clauses(filter: &LogFilter) -> (r: Vec<String>)
    ensures
        strs(r@) == log_clauses(filter@),
{
    proof {
        reveal_strlit("service");
        reveal_strlit("direction");
        reveal_strlit("rule_kind");
        reveal_strlit("filter_id = ?");
        reveal_strlit("dry_run = ?");
        reveal_strlit("(LOWER(reason) LIKE ? ESCAPE '\\' OR LOWER(CAST(sample AS TEXT)) LIKE ? ESCAPE '\\')");
        reveal_strlit("ts >= ?");
        reveal_strlit("ts < ?");
        reveal_strlit(" IN (");
        reveal_strlit(")");
        reveal_strlit("service IN (");
        reveal_strlit("direction IN (");
        reveal_strlit("rule_kind IN (");
        assert("service"@ + " IN ("@ =~= "service IN ("@);
        assert("direction"@ + " IN ("@ =~= "direction IN ("@);
        assert("rule_kind"@ + " IN ("@ =~= "rule_kind IN ("@);
    }
    let ghost f = filter@;
    let mut c: Vec<String> = Vec::new();
    proof {
        assert(strs(c@) =~= Seq::<Seq<char>>::empty());
    }
    if filter.services.len() > 0 {
        push_clause_if(&mut c, true, in_clause("service", filter.services.len()));
    }
    let ghost c1 = strs(c@);
    assert(c1 == opt_push(
        Seq::empty(),
        f.services.len() > 0,
        "service IN ("@ + placeholders(f.services.len()) + ")"@,
    ));
    if filter.directions.len() > 0 {
        push_clause_if(&mut c, true, in_clause("direction", filter.directions.len()));
    }
    assert(strs(c@) == opt_push(
        c1,
        f.directions.len() > 0,
        "direction IN ("@ + placeholders(f.directions.len()) + ")"@,
    ));
    let ghost c2 = strs(c@);
    if filter.kinds.len() > 0 {
        push_clause_if(&mut c, true, in_clause("rule_kind", filter.kinds.len()));
    }
    assert(strs(c@) == opt_push(
        c2,
        f.kinds.len() > 0,
        "rule_kind IN ("@ + placeholders(f.kinds.len()) + ")"@,
    ));
    push_clause_if(&mut c, filter.filter_id.is_some(), string_of("filter_id = ?"));
    push_clause_if(&mut c, filter.dry_run_only.is_some(), string_of("dry_run = ?"));
    push_clause_if(
        &mut c,
        filter.search.is_some(),
        string_of("(LOWER(reason) LIKE ? ESCAPE '\\' OR LOWER(CAST(sample AS TEXT)) LIKE ? ESCAPE '\\')"),
    );
    push_clause_if(&mut c, filter.since_ms.is_some(), string_of("ts >= ?"));
    push_clause_if(&mut c, filter.until_ms.is_some(), string_of("ts < ?"));
    c
}

/// Append the values of `src` to `dst`.
fn extend_values(dst: &mut Vec<SqlValue>, src: Vec<SqlValue>)
    ensures
        values_view(final(dst)@) == values_view(old(dst)@) + values_view(src@),
{
    let ghost start = values_view(dst@);
    let mut i: usize = 0;
    while i < src.len()
        invariant
            i <= src@.len(),
            values_view(dst@) == start + values_view(src@).take(i as int),
        decreases src.len() - i,
    {
        let ghost before = values_view(dst@);
        dst.push(src[i].clone_value());
        proof {
            assert(values_view(dst@) =~= before.push(src@[i as int]@));
            assert(values_view(src@).take(i + 1) =~= values_view(src@).take(i as int).push(
                src@[i as int]@,
            ));
        }
        i += 1;
    }
    proof {
        assert(values_view(src@).take(i as int) =~= values_view(src@));
    }
}

impl SqlValue {
    /// A copy of the value.
    pub fn clone_value(&self) -> (r: SqlValue)
        ensures
            r@ == self@,
    {
        match self {
            SqlValue::Integer(n) => SqlValue::Integer(*n),
            SqlValue::Text(s) => SqlValue::Text(string_of(s.as_str())),
            SqlValue::Blob(b) => SqlValue::Blob(crate::text::bytes_to_vec(b.as_slice())),
        }
    }
}

/// The values bound for the optional conditions (filter id, dry-run flag,
/// search, since, until) and the limit.
pub open spec fn tail_params(f: LogFilterView, limit: usize) -> Seq<SqlValueView> {
    (match f.filter_id {
        Some(id) => seq![SqlValueView::Text(uuid_text(id))],
        None => Seq::empty(),
    }) + (match f.dry_run_only {
        Some(d) => seq![SqlValueView::Integer(if d { 1 } else { 0 })],
        None => Seq::empty(),
    }) + (match f.search {
        Some(n) => seq![SqlValueView::Text(like_pattern(n)), SqlValueView::Text(like_pattern(n))],
        None => Seq::empty(),
    }) + (match f.since_ms {
        Some(s) => seq![SqlValueView::Integer(s)],
        None => Seq::empty(),
    }) + (match f.until_ms {
        Some(u) => seq![SqlValueView::Integer(u)],
        None => Seq::empty(),
    }) + seq![SqlValueView::Integer(limit as i64)]
}

/// The values bound for the optional conditions and the limit.
fn query_tail_params(filter: &LogFilter, limit: usize) -> (r: Vec<SqlValue>)
    ensures
        values_view(r@) == tail_params(filter@, limit),
{
    let ghost f = filter@;
    let mut p: Vec<SqlValue> = Vec::new();
    let ghost p0 = values_view(p@);
    match filter.filter_id {
        Some(id) => p.push(SqlValue::Text(uuid_string(id))),
        None => {},
    }
    let ghost p1 = values_view(p@);
    match filter.dry_run_only {
        Some(want_dry) => p.push(SqlValue::Integer(if want_dry { 1 } else { 0 })),
        None => {},
    }
    let ghost p2 = values_view(p@);
    match &filter.search {
        Some(needle) => {
            proof {
                reveal_strlit("%");
            }
            let lower = str_to_lowercase(needle.as_str());
            let mut like = string_of("%");
            push_like_escaped(&mut like, lower.as_str());
            like.append("%");
            p.push(SqlValue::Text(string_of(like.as_str())));
            p.push(SqlValue::Text(like));
        },
        None => {},
    }
    let ghost p3 = values_view(p@);
    match filter.since_ms {
        Some(since) => p.push(SqlValue::Integer(since)),
        None => {},
    }
    let ghost p4 = values_view(p@);
    match filter.until_ms {
        Some(until) => p.push(SqlValue::Integer(until)),
        None => {},
    }
    let ghost p5 = values_view(p@);
    p.push(SqlValue::Integer(limit as i64));
    proof {
        assert(p1 =~= p0 + match f.filter_id {
            Some(id) => seq![SqlValueView::Text(uuid_text(id))],
            None => Seq::empty(),
        });
        assert(p2 =~= p1 + match f.dry_run_only {
            Some(d) => seq![SqlValueView::Integer(if d { 1 } else { 0 })],
            None => Seq::empty(),
        });
        assert(p3 =~= p2 + match f.search {
            Some(n) => seq![SqlValueView::Text(like_pattern(n)), SqlValueView::Text(like_pattern(n))],
            None => Seq::empty(),
        });
        assert(p4 =~= p3 + match f.since_ms {
            Some(s) => seq![SqlValueView::Integer(s)],
            None => Seq::empty(),
        });
        assert(p5 =~= p4 + match f.until_ms {
            Some(u) => seq![SqlValueView::Integer(u)],
            None => Seq::empty(),
        });
        assert(values_view(p@) =~= tail_params(f, limit));
    }
    p
}

/// A text value holding the name of each direction of `ds`.
fn direction_params(ds: &Vec<Direction>) -> (r: Vec<SqlValue>)
    ensures
        values_view(r@) == direction_texts(ds@),
{
    let mut p: Vec<SqlValue> = Vec::new();
    let mut i: usize = 0;
    while i < ds.len()
        invariant
            i <= ds@.len(),
            values_view(p@) == direction_texts(ds@.take(i as int)),
        decreases ds.len() - i,
    {
        let ghost before = values_view(p@);
        p.push(SqlValue::Text(string_of(ds[i].name())));
        proof {
            assert(values_view(p@) =~= before.push(SqlValueView::Text(ds@[i as int].spec_name())));
            assert(direction_texts(ds@.take(i + 1)) =~= direction_texts(ds@.take(i as int)).push(
                SqlValueView::Text(ds@[i as int].spec_name()),
            ));
        }
        i += 1;
    }
    proof {
        assert(ds@.take(i as int) =~= ds@);
    }
    p
}

/// The query `query_log(filter, limit)` runs: the matching rows, newest
/// (highest id) first, at most `limit`, with one bound value per
/// placeholder.
pub fn log_query(filter: &LogFilter, limit: usize) -> (r: LogQuery)
    ensures
        r.sql@ == log_query_sql(filter@),
        values_view(r.params@) == log_query_params(filter@, limit),
{
    let clauses = query_clauses(filter);
    proof {
        reveal_strlit("SELECT id, ts, service, direction, filter_id, rule_kind, dry_run, reason, sample\n             FROM block_log");
        reveal_strlit(" WHERE ");
        reveal_strlit(" ORDER BY id DESC LIMIT ?");
    }
    let mut sql = string_of(
        "SELECT id, ts, service, direction, filter_id, rule_kind, dry_run, reason, sample\n             FROM block_log",
    );
    if clauses.len() > 0 {
        sql.append(" WHERE ");
        push_joined(&mut sql, &clauses);
    }
    sql.append(" ORDER BY id DESC LIMIT ?");
    let mut params: Vec<SqlValue> = Vec::new();
    push_texts(&mut params, &filter.services);
    extend_values(&mut params, direction_params(&filter.directions));
    push_texts(&mut params, &filter.kinds);
    extend_values(&mut params, query_tail_params(filter, limit));
    proof {
        assert(sql@ =~= log_query_sql(filter@));
        assert(values_view(params@) =~= log_query_params(filter@, limit));
    }
    LogQuery { sql, params }
}

/// One row of the `block_log` table, as the database hands it back.
#[derive(Debug, Clone)]
pub struct LogRow {
    /// `id` column.
    pub id: i64,
    /// `ts` column.
    pub ts: i64,
    /// `service` column.
    pub service: String,
    /// `direction` column.
    pub direction: String,
    /// `filter_id` column.
    pub filter_id: String,
    /// `rule_kind` column.
    pub rule_kind: String,
    /// `dry_run` column.
    pub dry_run: i64,
    /// `reason` column.
    pub reason: String,
    /// `sample` column.
    pub sample: Vec<u8>,
}

/// The direction stored under the name `s`.
pub open spec fn direction_named(s: Seq<char>) -> Option<Direction> {
    if s == "inbound"@ {
        Some(Direction::Inbound)
    } else if s == "outbound"@ {
        Some(Direction::Outbound)
    } else {
        None
    }
}

/// Read a stored direction name back; any other text is `Malformed`.
pub fn direction_from_name(s: &str) -> (r: Result<Direction, StorageError>)
    ensures
        match direction_named(s@) {
            Some(d) => r == Ok::<Direction, StorageError>(d),
            None => r matches Err(StorageError::Malformed(m)) && m@ == "unknown direction "@ + s@,
        },
{
    proof {
        reveal_strlit("inbound");
        reveal_strlit("outbound");
    }
    if str_eq(s, "inbound") {
        Ok(Direction::Inbound)
    } else if str_eq(s, "outbound") {
        Ok(Direction::Outbound)
    } else {
        Err(StorageError::Malformed(concat_str("unknown direction ", s)))
    }
}

/// The entry a stored row reads back as, when its direction and filter id
/// can be read.
pub open spec fn decoded_row(row: LogRow) -> Option<LogRecord> {
    match (direction_named(row.direction@), uuid_parse(row.filter_id@)) {
        (Some(d), Some(id)) => Some(
            LogRecord {
                id: Some(row.id as u64),
                ts: row.ts,
                service: row.service@,
                direction: d,
                filter_id: id,
                rule_kind: row.rule_kind@,
                dry_run: row.dry_run != 0,
                reason: row.reason@,
                sample: row.sample@,
            },
        ),
        _ => None,
    }
}

/// Read a `block_log` row back into a log entry. An unknown direction name
/// or an unreadable filter id is `Malformed` (the direction is checked
/// first).
pub fn decode_log_row(row: LogRow) -> (r: Result<LogEntry, StorageError>)
    ensures
        r is Ok <==> decoded_row(row) is Some,
        r matches Ok(e) ==> decoded_row(row) == Some(e@),
        r matches Err(e) ==> e is Malformed,
        direction_named(row.direction@) is None ==> (r matches Err(StorageError::Malformed(m))
            && m@ == "unknown direction "@ + row.direction@),
        direction_named(row.direction@) is Some && uuid_parse(row.filter_id@) is None ==> (
        r matches Err(StorageError::Malformed(m)) && m@.take(11) == "filter_id: "@),
{
    let direction = match direction_from_name(row.direction.as_str()) {
        Ok(d) => d,
        Err(e) => {
            return Err(e);
        },
    };
    let filter_id = match parse_uuid(row.filter_id.as_str()) {
        Ok(id) => id,
        Err(e) => {
            let m = concat_str("filter_id: ", uuid_error_text(&e).as_str());
            proof {
                reveal_strlit("filter_id: ");
                assert(m@.take(11) =~= "filter_id: "@);
            }
            return Err(StorageError::Malformed(m));
        },
    };
    Ok(
        LogEntry {
            id: Some(row.id as u64),
            ts: row.ts,
            service: row.service,
            direction,
            filter_id,
            rule_kind: row.rule_kind,
            dry_run: row.dry_run != 0,
            reason: row.reason,
            sample: row.sample,
        },
    )
}

/// The values `append_log` binds for an entry, in column order: `ts`,
/// `service`, `direction`, `filter_id`, `rule_kind`, `dry_run`, `reason`,
/// `sample`.
pub open spec fn insert_params(e: LogRecord) -> Seq<SqlValueView> {
    seq![
        SqlValueView::Integer(e.ts),
        SqlValueView::Text(e.service),
        SqlValueView::Text(e.direction.spec_name()),
        SqlValueView::Text(uuid_text(e.filter_id)),
        SqlValueView::Text(e.rule_kind),
        SqlValueView::Integer(if e.dry_run { 1 } else { 0 }),
        SqlValueView::Text(e.reason),
        SqlValueView::Blob(e.sample),
    ]
}

/// The values bound when `entry` is appended to the log. The filter id is
/// written in a form that reads back as the same id.
pub fn log_insert_params(entry: &LogEntry) -> (r: Vec<SqlValue>)
    ensures
        values_view(r@) == insert_params(entry@),
        uuid_parse(uuid_text(entry.filter_id)) == Some(entry.filter_id),
{
    let id_text = uuid_string(entry.filter_id);
    proof {
        law_uuid_text_reads_back(entry.filter_id);
    }
    let mut p: Vec<SqlValue> = Vec::new();
    p.push(SqlValue::Integer(entry.ts));
    p.push(SqlValue::Text(string_of(entry.service.as_str())));
    p.push(SqlValue::Text(string_of(entry.direction.name())));
    p.push(SqlValue::Text(id_text));
    p.push(SqlValue::Text(string_of(entry.rule_kind.as_str())));
    p.push(SqlValue::Integer(if entry.dry_run { 1 } else { 0 }));
    p.push(SqlValue::Text(string_of(entry.reason.as_str())));
    p.push(SqlValue::Blob(crate::text::bytes_to_vec(entry.sample.as_slice())));
    proof {
        assert(values_view(p@) =~= insert_params(entry@));
    }
    p
}

/// What the log stores reads back as what was appended: a row holding the
/// values bound for an entry (with the filter id text in a form that reads
/// back as the id, as `log_insert_params` guarantees) decodes to that entry
/// under the row's id.
pub proof fn law_stored_row_reads_back(e: LogRecord, row: LogRow)
    requires
        row.id >= 0,
        row.ts == e.ts,
        row.service@ == e.service,
        row.direction@ == e.direction.spec_name(),
        uuid_parse(row.filter_id@) == Some(e.filter_id),
        row.rule_kind@ == e.rule_kind,
        row.dry_run == (if e.dry_run {
            1i64
        } else {
            0i64
        }),
        row.reason@ == e.reason,
        row.sample@ == e.sample,
    ensures
        decoded_row(row) == Some(LogRecord { id: Some(row.id as u64), ..e }),
{
    reveal_strlit("inbound");
    reveal_strlit("outbound");
    assert("inbound"@ =~= Direction::Inbound.spec_name());
    assert("outbound"@ =~= Direction::Outbound.spec_name());
    assert("inbound"@ != "outbound"@) by {
        assert("inbound"@.len() != "outbound"@.len());
    }
}

} // verus!
