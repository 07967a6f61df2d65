//! Which threads a listing shows and in what order, as a condition on threads and as SQL.

use super::sections::in_section;
use super::sections::is_in_section;
use crate::outside::thread_id_text;
use crate::outside::uuid_text;
use crate::table::Condition;
use crate::table::Ranking;
use crate::text::contains_text;
use crate::text::has_part;
use crate::text::has_text;
use crate::text::holds_text;
use crate::text::is_text;
use crate::text::same_text;
use crate::thread_id::opt_view;
use crate::thread_id::ThreadId;
use crate::threads::ThreadRow;
use vstd::prelude::*;
use vstd::string::*;

verus! {

/// What threads are ordered by.
#[derive(Clone, Copy, Debug, PartialEq, Eq, Structural)]
pub enum SortKey {
    CreatedAt,
    UpdatedAt,
    RecencyAt,
    SectionPosition,
}

#[derive(Clone, Copy, Debug, PartialEq, Eq, Structural)]
pub enum SortDirection {
    Asc,
    Desc,
}

/// Where a page ended: the value of the sort key, and the thread if the order goes by it too.
#[derive(Clone, Copy, Debug, PartialEq, Eq, Structural)]
pub struct Anchor {
    pub ts: i64,
    pub id: Option<ThreadId>,
}

/// A relation to another thread.
#[derive(Clone, Copy, Debug, PartialEq, Eq, Structural)]
pub enum ThreadRelationFilter {
    DirectChildrenOf(ThreadId),
    DescendantsOf(ThreadId),
}

/// Which threads to list, from where on, and in what order.
#[derive(Clone, Copy)]
pub struct ThreadFilterOptions<'a> {
    pub archived_only: bool,
    pub allowed_sources: &'a [String],
    pub model_providers: Option<&'a [String]>,
    pub cwd_filters: Option<&'a [String]>,
    pub repository_identity: Option<&'a str>,
    pub section: Option<Option<&'a str>>,
    pub anchor: Option<&'a Anchor>,
    pub sort_key: SortKey,
    pub sort_direction: SortDirection,
    pub search_term: Option<&'a str>,
}

/// The value of the sort key.
pub open spec fn key_value(row: ThreadRow, key: SortKey) -> Option<i64> {
    match key {
        SortKey::CreatedAt => Some(row.metadata.created_at),
        SortKey::UpdatedAt => Some(row.metadata.updated_at),
        SortKey::RecencyAt => Some(row.metadata.recency_at),
        SortKey::SectionPosition => row.metadata.section_position,
    }
}

pub(super) fn key_of_row(row: &ThreadRow, key: SortKey) -> (value: Option<i64>)
    ensures
        value == key_value(*row, key),
{
    match key {
        SortKey::CreatedAt => Some(row.metadata.created_at),
        SortKey::UpdatedAt => Some(row.metadata.updated_at),
        SortKey::RecencyAt => Some(row.metadata.recency_at),
        SortKey::SectionPosition => row.metadata.section_position,
    }
}

/// An optional text, an absent one being empty.
pub open spec fn text_or_empty(text: Option<String>) -> Seq<char> {
    match text {
        Some(text) => text@,
        None => Seq::empty(),
    }
}

/// The thread is where the listing looks: in one of the directories or in the repository. Without
/// both, everywhere.
pub open spec fn is_located(row: ThreadRow, cwd_filters: Option<&[String]>, repository_identity: Option<&str>) -> bool {
    let in_directory = cwd_filters is Some && holds_text(cwd_filters->0@, row.metadata.cwd@);
    let in_repository = repository_identity is Some && opt_view(row.metadata.repository_identity) == Some(repository_identity->0@);
    cwd_filters is None && repository_identity is None || in_directory || in_repository
}

/// The term occurs in the name, the title or the preview of the thread.
pub open spec fn is_found_by(row: ThreadRow, term: Seq<char>) -> bool {
    ||| has_part(text_or_empty(row.metadata.name), term)
    ||| has_part(row.metadata.title@, term)
    ||| has_part(text_or_empty(row.metadata.preview), term)
}

/// The thread comes after the anchor. Threads with the same value of the sort key are told apart
/// by their identifiers only if the anchor names one.
pub open spec fn is_beyond(row: ThreadRow, key: SortKey, direction: SortDirection, ts: i64, id: Option<ThreadId>) -> bool {
    match key_value(row, key) {
        Some(value) => match direction {
            SortDirection::Asc => value > ts || id is Some && value == ts && row.metadata.id.value > id->0.value,
            SortDirection::Desc => value < ts || id is Some && value == ts && row.metadata.id.value < id->0.value,
        },
        None => false,
    }
}

/// The identifier that the anchor is compared by.
pub open spec fn anchor_id(anchor: Anchor, tiebreaker: bool) -> Option<ThreadId> {
    if tiebreaker {
        anchor.id
    } else {
        None
    }
}

/// The thread is one that the listing shows.
pub open spec fn passes(options: ThreadFilterOptions, tiebreaker: bool, include_empty_preview: bool, row: ThreadRow) -> bool {
    &&& options.archived_only == row.metadata.archived_at is Some
    &&& include_empty_preview || text_or_empty(row.metadata.preview).len() > 0
    &&& match options.section {
        Some(Some(section)) => in_section(row, section@),
        Some(None) => row.metadata.section is None,
        None => true,
    }
    &&& options.allowed_sources@.len() > 0 ==> holds_text(options.allowed_sources@, row.metadata.source@)
    &&& options.model_providers is Some && options.model_providers->0@.len() > 0 ==> holds_text(
        options.model_providers->0@,
        row.metadata.model_provider@,
    )
    &&& is_located(row, options.cwd_filters, options.repository_identity)
    &&& options.search_term is Some ==> is_found_by(row, options.search_term->0@)
    &&& options.anchor is Some ==> is_beyond(
        row,
        options.sort_key,
        options.sort_direction,
        options.anchor->0.ts,
        anchor_id(*options.anchor->0, tiebreaker),
    )
}

/// One condition of a listing.
#[derive(Clone, Copy)]
pub enum ThreadClause<'a> {
    Archived(bool),
    HasPreview,
    InSection(&'a str),
    NoSection,
    SourceIn(&'a [String]),
    ProviderIn(&'a [String]),
    Never,
    CwdInOrRepository { cwds: &'a [String], repository: &'a str },
    RepositoryIs(&'a str),
    CwdIn(&'a [String]),
    Mentions(&'a str),
    Beyond { key: SortKey, direction: SortDirection, ts: i64, id: Option<ThreadId> },
    TitleIs(&'a str),
    CwdIs(&'a str),
}

/// The thread satisfies the condition.
pub open spec fn clause_holds(clause: ThreadClause, row: ThreadRow) -> bool {
    match clause {
        ThreadClause::Archived(archived) => archived == row.metadata.archived_at is Some,
        ThreadClause::HasPreview => text_or_empty(row.metadata.preview).len() > 0,
        ThreadClause::InSection(section) => in_section(row, section@),
        ThreadClause::NoSection => row.metadata.section is None,
        ThreadClause::SourceIn(sources) => holds_text(sources@, row.metadata.source@),
        ThreadClause::ProviderIn(providers) => holds_text(providers@, row.metadata.model_provider@),
        ThreadClause::Never => false,
        ThreadClause::CwdInOrRepository { cwds, repository } => {
            holds_text(cwds@, row.metadata.cwd@) || opt_view(row.metadata.repository_identity) == Some(repository@)
        },
        ThreadClause::RepositoryIs(repository) => opt_view(row.metadata.repository_identity) == Some(repository@),
        ThreadClause::CwdIn(cwds) => holds_text(cwds@, row.metadata.cwd@),
        ThreadClause::Mentions(term) => is_found_by(row, term@),
        ThreadClause::Beyond { key, direction, ts, id } => is_beyond(row, key, direction, ts, id),
        ThreadClause::TitleIs(title) => row.metadata.title@ == title@,
        ThreadClause::CwdIs(cwd) => row.metadata.cwd@ == cwd@,
    }
}

/// The thread satisfies all conditions.
pub open spec fn all_hold(clauses: Seq<ThreadClause>, row: ThreadRow) -> bool {
    forall|i: int| 0 <= i < clauses.len() ==> clause_holds(#[trigger] clauses[i], row)
}

fn text_or_default(text: &Option<String>) -> (value: String)
    ensures
        value@ == text_or_empty(*text),
{
    match text {
        Some(text) => text.clone(),
        None => String::new(),
    }
}

fn is_mentioned(row: &ThreadRow, term: &str) -> (r: bool)
    ensures
        r == is_found_by(*row, term@),
{
    contains_text(text_or_default(&row.metadata.name).as_str(), term) || contains_text(row.metadata.title.as_str(), term) || contains_text(
        text_or_default(&row.metadata.preview).as_str(),
        term,
    )
}

fn lies_beyond(row: &ThreadRow, key: SortKey, direction: SortDirection, ts: i64, id: Option<ThreadId>) -> (r: bool)
    ensures
        r == is_beyond(*row, key, direction, ts, id),
{
    let value: i64 = match key_of_row(row, key) {
        Some(value) => value,
        None => return false,
    };
    match (direction, id) {
        (SortDirection::Asc, Some(id)) => value > ts || value == ts && row.metadata.id.value > id.value,
        (SortDirection::Asc, None) => value > ts,
        (SortDirection::Desc, Some(id)) => value < ts || value == ts && row.metadata.id.value < id.value,
        (SortDirection::Desc, None) => value < ts,
    }
}

fn test_clause(clause: ThreadClause, row: &ThreadRow) -> (held: bool)
    ensures
        held == clause_holds(clause, *row),
{
    match clause {
        ThreadClause::Archived(archived) => archived == row.metadata.archived_at.is_some(),
        ThreadClause::HasPreview => !text_or_default(&row.metadata.preview).as_str().is_empty(),
        ThreadClause::InSection(section) => is_in_section(row, section),
        ThreadClause::NoSection => row.metadata.section.is_none(),
        ThreadClause::SourceIn(sources) => has_text(sources, row.metadata.source.as_str()),
        ThreadClause::ProviderIn(providers) => has_text(providers, row.metadata.model_provider.as_str()),
        ThreadClause::Never => false,
        ThreadClause::CwdInOrRepository { cwds, repository } => {
            has_text(cwds, row.metadata.cwd.as_str()) || is_text(&row.metadata.repository_identity, repository)
        },
        ThreadClause::RepositoryIs(repository) => is_text(&row.metadata.repository_identity, repository),
        ThreadClause::CwdIn(cwds) => has_text(cwds, row.metadata.cwd.as_str()),
        ThreadClause::Mentions(term) => is_mentioned(row, term),
        ThreadClause::Beyond { key, direction, ts, id } => lies_beyond(row, key, direction, ts, id),
        ThreadClause::TitleIs(title) => same_text(row.metadata.title.as_str(), title),
        ThreadClause::CwdIs(cwd) => same_text(row.metadata.cwd.as_str(), cwd),
    }
}

fn push_section_filter<'a>(clauses: &mut Vec<ThreadClause<'a>>, options: ThreadFilterOptions<'a>)
    ensures
        final(clauses)@ == old(clauses)@ + section_clauses(options),
{
    match options.section {
        Some(Some(section)) => {
            clauses.push(ThreadClause::InSection(section));
        },
        Some(None) => {
            clauses.push(ThreadClause::NoSection);
        },
        None => {},
    }
    assert(clauses@ =~= old(clauses)@ + section_clauses(options));
}

fn push_origin_filters<'a>(clauses: &mut Vec<ThreadClause<'a>>, options: ThreadFilterOptions<'a>)
    ensures
        final(clauses)@ == old(clauses)@ + (source_clauses(options) + provider_clauses(options)),
{
    if options.allowed_sources.len() > 0 {
        clauses.push(ThreadClause::SourceIn(options.allowed_sources));
    }
    if let Some(providers) = options.model_providers {
        if providers.len() > 0 {
            clauses.push(ThreadClause::ProviderIn(providers));
        }
    }
    assert(clauses@ =~= old(clauses)@ + (source_clauses(options) + provider_clauses(options)));
}

fn push_location_filter<'a>(clauses: &mut Vec<ThreadClause<'a>>, options: ThreadFilterOptions<'a>)
    ensures
        final(clauses)@ == old(clauses)@ + location_clauses(options),
{
    match (options.cwd_filters, options.repository_identity) {
        (Some(cwds), None) => {
            if cwds.len() == 0 {
                clauses.push(ThreadClause::Never);
            } else {
                clauses.push(ThreadClause::CwdIn(cwds));
            }
        },
        (Some(cwds), Some(repository)) => {
            clauses.push(ThreadClause::CwdInOrRepository { cwds, repository });
        },
        (None, Some(repository)) => {
            clauses.push(ThreadClause::RepositoryIs(repository));
        },
        (None, None) => {},
    }
    assert(clauses@ =~= old(clauses)@ + location_clauses(options));
}

fn push_search_and_anchor<'a>(clauses: &mut Vec<ThreadClause<'a>>, options: ThreadFilterOptions<'a>, tiebreaker: bool)
    ensures
        final(clauses)@ == old(clauses)@ + (search_clauses(options) + anchor_clauses(options, tiebreaker)),
{
    if let Some(term) = options.search_term {
        clauses.push(ThreadClause::Mentions(term));
    }
    if let Some(anchor) = options.anchor {
        let id = if tiebreaker {
            anchor.id
        } else {
            None
        };
        clauses.push(ThreadClause::Beyond { key: options.sort_key, direction: options.sort_direction, ts: anchor.ts, id });
    }
    assert(clauses@ =~= old(clauses)@ + (search_clauses(options) + anchor_clauses(options, tiebreaker)));
}

proof fn lemma_add_associates<A>(a: Seq<A>, b: Seq<A>, c: Seq<A>)
    ensures
        (a + b) + c == a + (b + c),
{
    assert((a + b) + c =~= a + (b + c));
}

/// Adds the conditions of a listing, in the order in which the query states them.
pub fn push_thread_filters_with_preview<'a>(
    clauses: &mut Vec<ThreadClause<'a>>,
    options: ThreadFilterOptions<'a>,
    include_thread_id_tiebreaker: bool,
    include_empty_preview: bool,
)
    ensures
        final(clauses)@ == old(clauses)@ + filter_clauses(options, include_thread_id_tiebreaker, include_empty_preview),
{
    let ghost start = clauses@;
    let ghost visible = visibility_clauses(options, include_empty_preview);
    clauses.push(ThreadClause::Archived(options.archived_only));
    if !include_empty_preview {
        clauses.push(ThreadClause::HasPreview);
    }
    assert(clauses@ =~= start + visible);
    push_section_filter(clauses, options);
    push_origin_filters(clauses, options);
    push_location_filter(clauses, options);
    push_search_and_anchor(clauses, options, include_thread_id_tiebreaker);
    proof {
        let section = section_clauses(options);
        let origin = source_clauses(options) + provider_clauses(options);
        let location = location_clauses(options);
        let rest = search_clauses(options) + anchor_clauses(options, include_thread_id_tiebreaker);
        lemma_add_associates(start, visible, section);
        lemma_add_associates(start, visible + section, origin);
        lemma_add_associates(start, visible + section + origin, location);
        lemma_add_associates(start, visible + section + origin + location, rest);
    }
}

/// Adds the conditions of a listing that leaves out threads without a preview.
pub fn push_thread_filters<'a>(clauses: &mut Vec<ThreadClause<'a>>, options: ThreadFilterOptions<'a>, include_thread_id_tiebreaker: bool)
    ensures
        final(clauses)@ == old(clauses)@ + filter_clauses(options, include_thread_id_tiebreaker, false),
{
    push_thread_filters_with_preview(clauses, options, include_thread_id_tiebreaker, false);
}

pub open spec fn visibility_clauses<'a>(options: ThreadFilterOptions<'a>, include_empty_preview: bool) -> Seq<ThreadClause<'a>> {
    if include_empty_preview {
        seq![ThreadClause::Archived(options.archived_only)]
    } else {
        seq![ThreadClause::Archived(options.archived_only), ThreadClause::HasPreview]
    }
}

pub open spec fn section_clauses<'a>(options: ThreadFilterOptions<'a>) -> Seq<ThreadClause<'a>> {
    match options.section {
        Some(Some(section)) => seq![ThreadClause::InSection(section)],
        Some(None) => seq![ThreadClause::NoSection],
        None => Seq::empty(),
    }
}

pub open spec fn source_clauses<'a>(options: ThreadFilterOptions<'a>) -> Seq<ThreadClause<'a>> {
    if options.allowed_sources@.len() > 0 {
        seq![ThreadClause::SourceIn(options.allowed_sources)]
    } else {
        Seq::empty()
    }
}

pub open spec fn provider_clauses<'a>(options: ThreadFilterOptions<'a>) -> Seq<ThreadClause<'a>> {
    if options.model_providers is Some && options.model_providers->0@.len() > 0 {
        seq![ThreadClause::ProviderIn(options.model_providers->0)]
    } else {
        Seq::empty()
    }
}

pub open spec fn location_clauses<'a>(options: ThreadFilterOptions<'a>) -> Seq<ThreadClause<'a>> {
    match (options.cwd_filters, options.repository_identity) {
        (Some(cwds), None) => if cwds@.len() == 0 {
            seq![ThreadClause::Never]
        } else {
            seq![ThreadClause::CwdIn(cwds)]
        },
        (Some(cwds), Some(repository)) => seq![ThreadClause::CwdInOrRepository { cwds, repository }],
        (None, Some(repository)) => seq![ThreadClause::RepositoryIs(repository)],
        (None, None) => Seq::empty(),
    }
}

pub open spec fn search_clauses<'a>(options: ThreadFilterOptions<'a>) -> Seq<ThreadClause<'a>> {
    match options.search_term {
        Some(term) => seq![ThreadClause::Mentions(term)],
        None => Seq::empty(),
    }
}

pub open spec fn anchor_clauses<'a>(options: ThreadFilterOptions<'a>, tiebreaker: bool) -> Seq<ThreadClause<'a>> {
    match options.anchor {
        Some(anchor) => seq![
            ThreadClause::Beyond {
                key: options.sort_key,
                direction: options.sort_direction,
                ts: anchor.ts,
                id: anchor_id(*anchor, tiebreaker),
            },
        ],
        None => Seq::empty(),
    }
}

/// The conditions of a listing.
pub open spec fn filter_clauses<'a>(options: ThreadFilterOptions<'a>, tiebreaker: bool, include_empty_preview: bool) -> Seq<ThreadClause<'a>> {
    visibility_clauses(options, include_empty_preview) + section_clauses(options) + (source_clauses(options) + provider_clauses(options))
        + location_clauses(options) + (search_clauses(options) + anchor_clauses(options, tiebreaker))
}

/// Threads that satisfy all conditions and, where a list is given, are on it.
pub struct ListedThreads<'a> {
    pub clauses: &'a Vec<ThreadClause<'a>>,
    pub related: Option<&'a Vec<ThreadId>>,
}

impl<'a> Condition<ThreadRow> for ListedThreads<'a> {
    open spec fn holds(&self, row: ThreadRow) -> bool {
        &&& all_hold(self.clauses@, row)
        &&& self.related is Some ==> self.related->0@.contains(row.metadata.id)
    }

    fn test(&self, row: &ThreadRow) -> (held: bool) {
        let mut i: usize = 0;
        while i < self.clauses.len()
            invariant
                i <= self.clauses@.len(),
                forall|j: int| 0 <= j < i ==> clause_holds(#[trigger] self.clauses@[j], *row),
            decreases self.clauses@.len() - i,
        {
            if !test_clause(self.clauses[i], row) {
                return false;
            }
            i += 1;
        }
        match self.related {
            Some(related) => {
                let mut k: usize = 0;
                while k < related.len()
                    invariant
                        k <= related@.len(),
                        all_hold(self.clauses@, *row),
                        self.related == Some(related),
                        forall|j: int| 0 <= j < k ==> #[trigger] related@[j] != row.metadata.id,
                    decreases related@.len() - k,
                {
                    if related[k] == row.metadata.id {
                        assert(related@[k as int] == row.metadata.id);
                        return true;
                    }
                    k += 1;
                }
                false
            },
            None => true,
        }
    }
}

/// Threads by the sort key and, with a tiebreaker, by identifier. A thread without a value of the
/// sort key is the smallest.
pub struct BySortKey {
    pub key: SortKey,
    pub direction: SortDirection,
    pub tiebreaker: bool,
}

/// `a` is smaller than `b`; no value is the smallest.
pub open spec fn key_before(a: Option<i64>, b: Option<i64>) -> bool {
    match (a, b) {
        (Some(a), Some(b)) => a < b,
        (None, Some(_)) => true,
        (_, None) => false,
    }
}

/// `a` is smaller than `b` by the sort key, or by identifier.
pub open spec fn is_smaller(a: ThreadRow, b: ThreadRow, key: SortKey, tiebreaker: bool) -> bool {
    ||| key_before(key_value(a, key), key_value(b, key))
    ||| tiebreaker && key_value(a, key) == key_value(b, key) && a.metadata.id.value < b.metadata.id.value
}

fn is_row_smaller(a: &ThreadRow, b: &ThreadRow, key: SortKey, tiebreaker: bool) -> (r: bool)
    ensures
        r == is_smaller(*a, *b, key, tiebreaker),
{
    match (key_of_row(a, key), key_of_row(b, key)) {
        (Some(left), Some(right)) => left < right || tiebreaker && left == right && a.metadata.id.value < b.metadata.id.value,
        (None, Some(_)) => true,
        (Some(_), None) => false,
        (None, None) => tiebreaker && a.metadata.id.value < b.metadata.id.value,
    }
}

impl Ranking<ThreadRow> for BySortKey {
    open spec fn before(&self, a: ThreadRow, b: ThreadRow) -> bool {
        match self.direction {
            SortDirection::Asc => is_smaller(a, b, self.key, self.tiebreaker),
            SortDirection::Desc => is_smaller(b, a, self.key, self.tiebreaker),
        }
    }

    fn is_before(&self, a: &ThreadRow, b: &ThreadRow) -> (r: bool) {
        match self.direction {
            SortDirection::Asc => is_row_smaller(a, b, self.key, self.tiebreaker),
            SortDirection::Desc => is_row_smaller(b, a, self.key, self.tiebreaker),
        }
    }

    proof fn asymmetric(&self, a: ThreadRow, b: ThreadRow) {
    }

    proof fn negatively_transitive(&self, a: ThreadRow, b: ThreadRow, c: ThreadRow) {
    }
}

/// A value bound to a query.
#[derive(Debug, PartialEq, Eq)]
pub enum SqlBind {
    Text(String),
    Integer(i64),
}

pub enum SqlBindView {
    Text(Seq<char>),
    Integer(i64),
}

impl View for SqlBind {
    type V = SqlBindView;

    open spec fn view(&self) -> SqlBindView {
        match self {
            SqlBind::Text(text) => SqlBindView::Text(text@),
            SqlBind::Integer(value) => SqlBindView::Integer(*value),
        }
    }
}

/// A query and the values bound to it, in the order of their placeholders.
#[derive(Debug, PartialEq, Eq)]
pub struct SqlQuery {
    pub text: String,
    pub binds: Vec<SqlBind>,
}

#[verifier::ext_equal]
pub struct SqlQueryView {
    pub text: Seq<char>,
    pub binds: Seq<SqlBindView>,
}

impl View for SqlQuery {
    type V = SqlQueryView;

    open spec fn view(&self) -> SqlQueryView {
        SqlQueryView { text: self.text@, binds: Seq::new(self.binds@.len(), |i: int| self.binds@[i]@) }
    }
}

impl SqlQueryView {
    pub open spec fn pushed(self, text: Seq<char>) -> SqlQueryView {
        SqlQueryView { text: self.text + text, ..self }
    }

    pub open spec fn bound(self, bind: SqlBindView) -> SqlQueryView {
        SqlQueryView { text: self.text + "?"@, binds: self.binds.push(bind) }
    }

    /// With a list of texts, separated by commas.
    pub open spec fn listed(self, texts: Seq<String>, n: nat) -> SqlQueryView
        decreases n,
    {
        if n == 0 {
            self
        } else {
            let before = self.listed(texts, (n - 1) as nat);
            let separated = if n == 1 {
                before
            } else {
                before.pushed(", "@)
            };
            separated.bound(SqlBindView::Text(texts[n - 1]@))
        }
    }
}

impl SqlQuery {
    /// The empty query.
    pub fn new() -> (query: Self)
        ensures
            query@ == (SqlQueryView { text: Seq::empty(), binds: Seq::empty() }),
    {
        let query = SqlQuery { text: String::new(), binds: Vec::new() };
        assert(query@.binds =~= Seq::<SqlBindView>::empty());
        query
    }

    /// Adds text.
    pub fn push(&mut self, text: &str)
        ensures
            final(self)@ == old(self)@.pushed(text@),
    {
        self.text.append(text);
        assert(self@ =~= old(self)@.pushed(text@));
    }

    fn bind(&mut self, bind: SqlBind)
        ensures
            final(self)@ == old(self)@.bound(bind@),
    {
        let ghost value = bind@;
        self.text.append("?");
        self.binds.push(bind);
        assert(self@ =~= old(self)@.bound(value));
    }

    /// Adds a placeholder for a text.
    pub fn push_text(&mut self, text: &str)
        ensures
            final(self)@ == old(self)@.bound(SqlBindView::Text(text@)),
    {
        self.bind(SqlBind::Text(text.to_owned()));
    }

    /// Adds a placeholder for a number.
    pub fn push_integer(&mut self, value: i64)
        ensures
            final(self)@ == old(self)@.bound(SqlBindView::Integer(value)),
    {
        self.bind(SqlBind::Integer(value));
    }

    /// Adds placeholders for texts, separated by commas.
    pub fn push_texts(&mut self, texts: &[String])
        ensures
            final(self)@ == old(self)@.listed(texts@, texts@.len()),
    {
        let mut i: usize = 0;
        while i < texts.len()
            invariant
                i <= texts@.len(),
                self@ == old(self)@.listed(texts@, i as nat),
            decreases texts@.len() - i,
        {
            if i > 0 {
                self.push(", ");
            }
            self.push_text(texts[i].as_str());
            i += 1;
        }
    }
}

/// The column of the sort key.
pub open spec fn column_text(key: SortKey) -> Seq<char> {
    match key {
        SortKey::CreatedAt => "threads.created_at_ms"@,
        SortKey::UpdatedAt => "threads.updated_at_ms"@,
        SortKey::RecencyAt => "threads.recency_at_ms"@,
        SortKey::SectionPosition => "threads.section_position"@,
    }
}

fn column(key: SortKey) -> (text: &'static str)
    ensures
        text@ == column_text(key),
{
    match key {
        SortKey::CreatedAt => "threads.created_at_ms",
        SortKey::UpdatedAt => "threads.updated_at_ms",
        SortKey::RecencyAt => "threads.recency_at_ms",
        SortKey::SectionPosition => "threads.section_position",
    }
}

/// The comparison that goes on in the direction.
pub open spec fn operator_text(direction: SortDirection) -> Seq<char> {
    match direction {
        SortDirection::Asc => ">"@,
        SortDirection::Desc => "<"@,
    }
}

fn operator(direction: SortDirection) -> (text: &'static str)
    ensures
        text@ == operator_text(direction),
{
    match direction {
        SortDirection::Asc => ">",
        SortDirection::Desc => "<",
    }
}

/// The query with a condition added.
pub open spec fn with_clause(query: SqlQueryView, clause: ThreadClause) -> SqlQueryView {
    match clause {
        ThreadClause::Archived(archived) => if archived {
            query.pushed(" AND threads.archived = 1"@)
        } else {
            query.pushed(" AND threads.archived = 0"@)
        },
        ThreadClause::HasPreview => query.pushed(" AND threads.preview <> ''"@),
        ThreadClause::InSection(section) => query.pushed(" AND threads.thread_section_id = "@).bound(SqlBindView::Text(section@)),
        ThreadClause::NoSection => query.pushed(" AND threads.thread_section_id IS NULL"@),
        ThreadClause::SourceIn(sources) => query.pushed(" AND threads.source IN ("@).listed(sources@, sources@.len()).pushed(")"@),
        ThreadClause::ProviderIn(providers) => query.pushed(" AND threads.model_provider IN ("@).listed(providers@, providers@.len()).pushed(")"@),
        ThreadClause::Never => query.pushed(" AND 1 = 0"@),
        ThreadClause::CwdInOrRepository { cwds, repository } => query.pushed(" AND (threads.cwd IN ("@).listed(cwds@, cwds@.len()).pushed(
            ") OR threads.repository_identity = "@,
        ).bound(SqlBindView::Text(repository@)).pushed(")"@),
        ThreadClause::RepositoryIs(repository) => query.pushed(" AND threads.repository_identity = "@).bound(SqlBindView::Text(repository@)),
        ThreadClause::CwdIn(cwds) => query.pushed(" AND threads.cwd IN ("@).listed(cwds@, cwds@.len()).pushed(")"@),
        ThreadClause::Mentions(term) => query.pushed(" AND (instr(COALESCE(threads.name, ''), "@).bound(SqlBindView::Text(term@)).pushed(
            ") > 0 OR instr(threads.title, "@,
        ).bound(SqlBindView::Text(term@)).pushed(") > 0 OR instr(threads.preview, "@).bound(SqlBindView::Text(term@)).pushed(") > 0)"@),
        ThreadClause::Beyond { key, direction, ts, id } => {
            let compared = query.pushed(" AND ("@).pushed(column_text(key)).pushed(" "@).pushed(operator_text(direction)).pushed(" "@).bound(
                SqlBindView::Integer(ts),
            );
            let tied = match id {
                Some(id) => compared.pushed(" OR ("@).pushed(column_text(key)).pushed(" = "@).bound(SqlBindView::Integer(ts)).pushed(
                    " AND threads.id "@,
                ).pushed(operator_text(direction)).pushed(" "@).bound(SqlBindView::Text(uuid_text(id.value))).pushed(")"@),
                None => compared,
            };
            tied.pushed(")"@)
        },
        ThreadClause::TitleIs(title) => query.pushed(" AND threads.title = "@).bound(SqlBindView::Text(title@)),
        ThreadClause::CwdIs(cwd) => query.pushed(" AND threads.cwd = "@).bound(SqlBindView::Text(cwd@)),
    }
}

/// The query with the first `n` conditions added.
pub open spec fn with_clauses(query: SqlQueryView, clauses: Seq<ThreadClause>, n: nat) -> SqlQueryView
    decreases n,
{
    if n == 0 {
        query
    } else {
        with_clause(with_clauses(query, clauses, (n - 1) as nat), clauses[n - 1])
    }
}

fn push_clause(query: &mut SqlQuery, clause: ThreadClause)
    ensures
        final(query)@ == with_clause(old(query)@, clause),
{
    match clause {
        ThreadClause::Archived(archived) => {
            if archived {
                query.push(" AND threads.archived = 1");
            } else {
                query.push(" AND threads.archived = 0");
            }
        },
        ThreadClause::HasPreview => {
            query.push(" AND threads.preview <> ''");
        },
        ThreadClause::InSection(section) => {
            query.push(" AND threads.thread_section_id = ");
            query.push_text(section);
        },
        ThreadClause::NoSection => {
            query.push(" AND threads.thread_section_id IS NULL");
        },
        ThreadClause::SourceIn(sources) => {
            query.push(" AND threads.source IN (");
            query.push_texts(sources);
            query.push(")");
        },
        ThreadClause::ProviderIn(providers) => {
            query.push(" AND threads.model_provider IN (");
            query.push_texts(providers);
            query.push(")");
        },
        ThreadClause::Never => {
            query.push(" AND 1 = 0");
        },
        ThreadClause::CwdInOrRepository { cwds, repository } => {
            query.push(" AND (threads.cwd IN (");
            query.push_texts(cwds);
            query.push(") OR threads.repository_identity = ");
            query.push_text(repository);
            query.push(")");
        },
        ThreadClause::RepositoryIs(repository) => {
            query.push(" AND threads.repository_identity = ");
            query.push_text(repository);
        },
        ThreadClause::CwdIn(cwds) => {
            query.push(" AND threads.cwd IN (");
            query.push_texts(cwds);
            query.push(")");
        },
        ThreadClause::Mentions(term) => {
            query.push(" AND (instr(COALESCE(threads.name, ''), ");
            query.push_text(term);
            query.push(") > 0 OR instr(threads.title, ");
            query.push_text(term);
            query.push(") > 0 OR instr(threads.preview, ");
            query.push_text(term);
            query.push(") > 0)");
        },
        ThreadClause::Beyond { key, direction, ts, id } => {
            query.push(" AND (");
            query.push(column(key));
            query.push(" ");
            query.push(operator(direction));
            query.push(" ");
            query.push_integer(ts);
            if let Some(id) = id {
                query.push(" OR (");
                query.push(column(key));
                query.push(" = ");
                query.push_integer(ts);
                query.push(" AND threads.id ");
                query.push(operator(direction));
                query.push(" ");
                query.push_text(thread_id_text(id).as_str());
                query.push(")");
            }
            query.push(")");
        },
        ThreadClause::TitleIs(title) => {
            query.push(" AND threads.title = ");
            query.push_text(title);
        },
        ThreadClause::CwdIs(cwd) => {
            query.push(" AND threads.cwd = ");
            query.push_text(cwd);
        },
    }
}

/// Adds conditions to a query, after a condition that always holds.
pub fn push_clauses(query: &mut SqlQuery, clauses: &Vec<ThreadClause>)
    ensures
        final(query)@ == with_clauses(old(query)@.pushed(" WHERE 1 = 1"@), clauses@, clauses@.len()),
{
    query.push(" WHERE 1 = 1");
    let mut i: usize = 0;
    while i < clauses.len()
        invariant
            i <= clauses@.len(),
            query@ == with_clauses(old(query)@.pushed(" WHERE 1 = 1"@), clauses@, i as nat),
        decreases clauses@.len() - i,
    {
        push_clause(query, clauses[i]);
        i += 1;
    }
}

/// Whether an index may be used for the order.
///
/// Without one, a unary `+` before the column keeps the meaning of the order, and leaves a more
/// selective index to the conditions.
#[derive(Clone, Copy, Debug, PartialEq, Eq, Structural)]
pub enum OrderByIndex {
    Enabled,
    Disabled,
}

pub open spec fn direction_text(direction: SortDirection) -> Seq<char> {
    match direction {
        SortDirection::Asc => "ASC"@,
        SortDirection::Desc => "DESC"@,
    }
}

/// The limit as it is bound: negative, which stands for none, if it is out of range.
pub open spec fn bound_limit(limit: usize) -> i64 {
    if limit <= i64::MAX {
        limit as i64
    } else {
        -1i64
    }
}

/// The query with an order and a limit added.
pub open spec fn with_order_and_limit(
    query: SqlQueryView,
    key: SortKey,
    direction: SortDirection,
    index: OrderByIndex,
    tiebreaker: bool,
    limit: usize,
) -> SqlQueryView {
    let started = query.pushed(" ORDER BY "@);
    let indexed = if index == OrderByIndex::Disabled {
        started.pushed("+"@)
    } else {
        started
    };
    let ordered = indexed.pushed(column_text(key)).pushed(" "@).pushed(direction_text(direction));
    let tied = if tiebreaker {
        ordered.pushed(", threads.id "@).pushed(direction_text(direction))
    } else {
        ordered
    };
    tied.pushed(" LIMIT "@).bound(SqlBindView::Integer(bound_limit(limit)))
}

/// Adds an order and a limit to a query.
pub fn push_thread_order_and_limit(
    query: &mut SqlQuery,
    sort_key: SortKey,
    sort_direction: SortDirection,
    order_by_index: OrderByIndex,
    include_thread_id_tiebreaker: bool,
    limit: usize,
)
    ensures
        final(query)@ == with_order_and_limit(old(query)@, sort_key, sort_direction, order_by_index, include_thread_id_tiebreaker, limit),
{
    let direction = match sort_direction {
        SortDirection::Asc => "ASC",
        SortDirection::Desc => "DESC",
    };
    query.push(" ORDER BY ");
    if order_by_index == OrderByIndex::Disabled {
        query.push("+");
    }
    query.push(column(sort_key));
    query.push(" ");
    query.push(direction);
    if include_thread_id_tiebreaker {
        query.push(", threads.id ");
        query.push(direction);
    }
    query.push(" LIMIT ");
    let bound: i64 = if limit as u128 <= 9223372036854775807u128 {
        limit as i64
    } else {
        -1
    };
    query.push_integer(bound);
}

/// Whether threads with the same value of the sort key are told apart by their identifiers.
pub open spec fn has_tiebreaker(options: ThreadFilterOptions, relation: Option<ThreadRelationFilter>) -> bool {
    ||| relation is Some
    ||| options.sort_key == SortKey::RecencyAt
    ||| options.sort_key == SortKey::SectionPosition
    ||| options.repository_identity is Some
}

pub fn should_include_thread_id_tiebreaker(options: ThreadFilterOptions, relation: Option<ThreadRelationFilter>) -> (r: bool)
    ensures
        r == has_tiebreaker(options, relation),
{
    relation.is_some() || matches!(options.sort_key, SortKey::RecencyAt | SortKey::SectionPosition) || options.repository_identity.is_some()
}

/// Threads without a preview are listed too where they are asked for by relation or by section.
pub open spec fn includes_empty_previews(options: ThreadFilterOptions, relation: Option<ThreadRelationFilter>) -> bool {
    relation is Some || options.section is Some && options.section->0 is Some
}

fn should_include_empty_previews(options: ThreadFilterOptions, relation: Option<ThreadRelationFilter>) -> (r: bool)
    ensures
        r == includes_empty_previews(options, relation),
{
    relation.is_some() || match options.section {
        Some(Some(_)) => true,
        _ => false,
    }
}

/// Whether the order may use an index: not where another one is more selective.
pub open spec fn order_index(options: ThreadFilterOptions, relation: Option<ThreadRelationFilter>) -> OrderByIndex {
    if relation is Some || options.repository_identity is Some || options.cwd_filters is Some && options.cwd_filters->0@.len() > 1 {
        OrderByIndex::Disabled
    } else {
        OrderByIndex::Enabled
    }
}

fn choose_order_index(options: ThreadFilterOptions, relation: Option<ThreadRelationFilter>) -> (index: OrderByIndex)
    ensures
        index == order_index(options, relation),
{
    if relation.is_some() || options.repository_identity.is_some() {
        return OrderByIndex::Disabled;
    }
    match options.cwd_filters {
        Some(cwds) => if cwds.len() > 1 {
            OrderByIndex::Disabled
        } else {
            OrderByIndex::Enabled
        },
        None => OrderByIndex::Enabled,
    }
}

/// The columns of a listed thread.
pub open spec fn select_columns_text() -> Seq<char> {
    "
SELECT
    threads.id,
    threads.rollout_path,
    threads.created_at_ms AS created_at,
    threads.updated_at_ms AS updated_at,
    threads.recency_at_ms AS recency_at,
    threads.source,
    threads.history_mode,
    threads.thread_source,
    threads.agent_nickname,
    threads.agent_role,
    threads.agent_path,
    threads.model_provider,
    threads.model,
    threads.reasoning_effort,
    threads.cwd,
    threads.cli_version,
    threads.title,
    threads.name,
    threads.preview,
    threads.sandbox_policy,
    threads.approval_mode,
    threads.tokens_used,
    threads.first_user_message,
    threads.archived_at,
    threads.thread_section_id AS section,
    (
        SELECT thread_sections.name
        FROM thread_sections
        WHERE thread_sections.id = threads.thread_section_id
    ) AS section_name,
    (
        SELECT thread_sections.appearance
        FROM thread_sections
        WHERE thread_sections.id = threads.thread_section_id
    ) AS section_appearance,
    threads.section_position,
    threads.section_entered_at_ms,
    threads.git_sha,
    threads.git_branch,
    threads.git_origin_url,
    threads.repository_identity,
    threads.git_origin_url_is_explicit
"@
}

/// Adds the columns of a listed thread.
pub fn push_thread_select_columns(query: &mut SqlQuery)
    ensures
        final(query)@ == old(query)@.pushed(select_columns_text()),
{
    query.push(
        "
SELECT
    threads.id,
    threads.rollout_path,
    threads.created_at_ms AS created_at,
    threads.updated_at_ms AS updated_at,
    threads.recency_at_ms AS recency_at,
    threads.source,
    threads.history_mode,
    threads.thread_source,
    threads.agent_nickname,
    threads.agent_role,
    threads.agent_path,
    threads.model_provider,
    threads.model,
    threads.reasoning_effort,
    threads.cwd,
    threads.cli_version,
    threads.title,
    threads.name,
    threads.preview,
    threads.sandbox_policy,
    threads.approval_mode,
    threads.tokens_used,
    threads.first_user_message,
    threads.archived_at,
    threads.thread_section_id AS section,
    (
        SELECT thread_sections.name
        FROM thread_sections
        WHERE thread_sections.id = threads.thread_section_id
    ) AS section_name,
    (
        SELECT thread_sections.appearance
        FROM thread_sections
        WHERE thread_sections.id = threads.thread_section_id
    ) AS section_appearance,
    threads.section_position,
    threads.section_entered_at_ms,
    threads.git_sha,
    threads.git_branch,
    threads.git_origin_url,
    threads.repository_identity,
    threads.git_origin_url_is_explicit
",
    );
}

/// The query of a listing.
pub open spec fn list_query(query: SqlQueryView, options: ThreadFilterOptions, relation: Option<ThreadRelationFilter>, limit: usize) -> SqlQueryView {
    let recursive = match relation {
        Some(ThreadRelationFilter::DescendantsOf(ancestor)) => query.pushed(
            "
WITH RECURSIVE subtree(child_thread_id, parent_thread_id) AS (
    SELECT child_thread_id, parent_thread_id
    FROM thread_spawn_edges
    WHERE parent_thread_id =
"@,
        ).bound(SqlBindView::Text(uuid_text(ancestor.value))).pushed(
            "
    UNION
    SELECT edge.child_thread_id, edge.parent_thread_id
    FROM thread_spawn_edges AS edge
    JOIN subtree ON edge.parent_thread_id = subtree.child_thread_id
)
"@,
        ),
        _ => query,
    };
    let from = match relation {
        Some(ThreadRelationFilter::DirectChildrenOf(_)) => ", listed_edge.parent_thread_id AS parent_thread_id\nFROM thread_spawn_edges AS listed_edge\nCROSS JOIN threads ON threads.id = listed_edge.child_thread_id"@,
        Some(ThreadRelationFilter::DescendantsOf(_)) => ", subtree.parent_thread_id AS parent_thread_id\nFROM subtree\nCROSS JOIN threads ON threads.id = subtree.child_thread_id"@,
        None => " FROM threads"@,
    };
    let selected = recursive.pushed(select_columns_text()).pushed(from).pushed(" WHERE 1 = 1"@);
    let clauses = filter_clauses(options, has_tiebreaker(options, relation), includes_empty_previews(options, relation));
    let filtered = with_clauses(selected, clauses, clauses.len());
    let related = match relation {
        Some(ThreadRelationFilter::DirectChildrenOf(parent)) => filtered.pushed(" AND listed_edge.parent_thread_id = "@).bound(
            SqlBindView::Text(uuid_text(parent.value)),
        ),
        Some(ThreadRelationFilter::DescendantsOf(ancestor)) => filtered.pushed(" AND subtree.child_thread_id != "@).bound(
            SqlBindView::Text(uuid_text(ancestor.value)),
        ),
        None => filtered,
    };
    with_order_and_limit(
        related,
        options.sort_key,
        options.sort_direction,
        order_index(options, relation),
        has_tiebreaker(options, relation),
        limit,
    )
}

/// The conditions of a listing, with what the relation and the sort key imply.
pub(super) fn listing_clauses<'a>(options: ThreadFilterOptions<'a>, relation: Option<ThreadRelationFilter>) -> (clauses: Vec<ThreadClause<'a>>)
    ensures
        clauses@ == filter_clauses(options, has_tiebreaker(options, relation), includes_empty_previews(options, relation)),
{
    let mut clauses: Vec<ThreadClause> = Vec::new();
    push_thread_filters_with_preview(
        &mut clauses,
        options,
        should_include_thread_id_tiebreaker(options, relation),
        should_include_empty_previews(options, relation),
    );
    assert(clauses@ =~= filter_clauses(options, has_tiebreaker(options, relation), includes_empty_previews(options, relation)));
    clauses
}

/// Adds the query of a listing.
pub fn push_list_threads_query(query: &mut SqlQuery, filters: ThreadFilterOptions, relation_filter: Option<ThreadRelationFilter>, limit: usize)
    ensures
        final(query)@ == list_query(old(query)@, filters, relation_filter, limit),
{
    if let Some(ThreadRelationFilter::DescendantsOf(ancestor)) = relation_filter {
        query.push(
            "
WITH RECURSIVE subtree(child_thread_id, parent_thread_id) AS (
    SELECT child_thread_id, parent_thread_id
    FROM thread_spawn_edges
    WHERE parent_thread_id =
",
        );
        query.push_text(thread_id_text(ancestor).as_str());
        query.push(
            "
    UNION
    SELECT edge.child_thread_id, edge.parent_thread_id
    FROM thread_spawn_edges AS edge
    JOIN subtree ON edge.parent_thread_id = subtree.child_thread_id
)
",
        );
    }
    push_thread_select_columns(query);
    match relation_filter {
        Some(ThreadRelationFilter::DirectChildrenOf(_)) => {
            query.push(
                ", listed_edge.parent_thread_id AS parent_thread_id\nFROM thread_spawn_edges AS listed_edge\nCROSS JOIN threads ON threads.id = listed_edge.child_thread_id",
            );
        },
        Some(ThreadRelationFilter::DescendantsOf(_)) => {
            query.push(
                ", subtree.parent_thread_id AS parent_thread_id\nFROM subtree\nCROSS JOIN threads ON threads.id = subtree.child_thread_id",
            );
        },
        None => {
            query.push(" FROM threads");
        },
    }
    let clauses = listing_clauses(filters, relation_filter);
    push_clauses(query, &clauses);
    match relation_filter {
        Some(ThreadRelationFilter::DirectChildrenOf(parent)) => {
            query.push(" AND listed_edge.parent_thread_id = ");
            query.push_text(thread_id_text(parent).as_str());
        },
        Some(ThreadRelationFilter::DescendantsOf(ancestor)) => {
            query.push(" AND subtree.child_thread_id != ");
            query.push_text(thread_id_text(ancestor).as_str());
        },
        None => {},
    }
    push_thread_order_and_limit(
        query,
        filters.sort_key,
        filters.sort_direction,
        choose_order_index(filters, relation_filter),
        should_include_thread_id_tiebreaker(filters, relation_filter),
        limit,
    );
}

} // verus!
