//! The controllers. A controller does not talk to the persistence gateway
//! itself: it says which gateway call a request amounts to, or answers at
//! once where the request fails validation. Whoever holds the gateway makes
//! the call and turns its outcome into the response with
//! `ResultEnvelope::from_result`.

use crate::envelope::{envelope_of, failure, EnvelopeView, ResultEnvelope, CODE_CLIENT_ERROR};
use crate::error::{DomainError, ValidationError};
use vstd::prelude::*;

verus! {

/// How many articles the list of recent articles holds at most.
pub const RECENT_ARTICLE_NUM: usize = 10;

/// A call on the persistence gateway about articles. `A` is the article
/// record, which the controllers pass on unread.
#[derive(Debug, PartialEq, Eq)]
pub enum ArticleCall<A> {
    Save(A),
    ListAll,
    /// The most recent articles, at most as many as given.
    ListRecent(usize),
    Get(String),
    Update(String, A),
    Remove(String),
}

/// A call on the persistence gateway about quotes. `Q` is the quote record.
#[derive(Debug, PartialEq, Eq)]
pub enum QuoteCall<Q> {
    Save(Q),
    Random,
}

/// What a controller decides for a request that it validates first.
#[derive(Debug)]
pub enum Step<C, T> {
    /// Make this gateway call and answer with its outcome.
    Call(C),
    /// Answer with this envelope; the gateway is not called.
    Respond(ResultEnvelope<T>),
}

/// What an article call stands for.
pub enum ArticleCallView<A> {
    Save(A),
    ListAll,
    ListRecent(nat),
    Get(Seq<char>),
    Update(Seq<char>, A),
    Remove(Seq<char>),
}

impl<A> View for ArticleCall<A> {
    type V = ArticleCallView<A>;

    open spec fn view(&self) -> ArticleCallView<A> {
        match self {
            ArticleCall::Save(article) => ArticleCallView::Save(*article),
            ArticleCall::ListAll => ArticleCallView::ListAll,
            ArticleCall::ListRecent(limit) => ArticleCallView::ListRecent(*limit as nat),
            ArticleCall::Get(id) => ArticleCallView::Get(id@),
            ArticleCall::Update(id, article) => ArticleCallView::Update(id@, *article),
            ArticleCall::Remove(id) => ArticleCallView::Remove(id@),
        }
    }
}

/// What a step stands for.
pub enum StepView<A, T> {
    Call(ArticleCallView<A>),
    Respond(EnvelopeView<T>),
}

impl<A, T> View for Step<ArticleCall<A>, T> {
    type V = StepView<A, T>;

    open spec fn view(&self) -> StepView<A, T> {
        match self {
            Step::Call(call) => StepView::Call(call@),
            Step::Respond(envelope) => StepView::Respond(envelope@),
        }
    }
}

/// The step for a call that needs an identifier: the client-error envelope
/// where the identifier is empty, else the call.
pub open spec fn checked_step<A, T>(id: Seq<char>, call: ArticleCallView<A>) -> StepView<A, T> {
    if id.len() == 0 {
        StepView::Respond(failure(CODE_CLIENT_ERROR as int, ValidationError::EmptyId.text()))
    } else {
        StepView::Call(call)
    }
}

/// The list of recent articles as it is answered: the gateway's list, cut
/// after `RECENT_ARTICLE_NUM` records where it is longer.
pub open spec fn recent_of<A>(records: Seq<A>) -> Seq<A> {
    if records.len() > RECENT_ARTICLE_NUM {
        records.take(RECENT_ARTICLE_NUM as int)
    } else {
        records
    }
}

/// Create an article: the gateway is to save `article` as it came.
pub fn save_article<A>(article: A) -> (call: ArticleCall<A>)
    ensures
        call@ == ArticleCallView::Save(article),
{
    ArticleCall::Save(article)
}

/// List all articles, in the gateway's order.
pub fn list_all_articles<A>() -> (call: ArticleCall<A>)
    ensures
        call@ == ArticleCallView::<A>::ListAll,
{
    ArticleCall::ListAll
}

/// List the most recent articles: the gateway is asked for
/// `RECENT_ARTICLE_NUM` of them.
pub fn list_recent_articles<A>() -> (call: ArticleCall<A>)
    ensures
        call@ == ArticleCallView::<A>::ListRecent(RECENT_ARTICLE_NUM as nat),
{
    ArticleCall::ListRecent(RECENT_ARTICLE_NUM)
}

/// Fetch the article with identifier `id`.
pub fn get_article<A>(id: &str) -> (call: ArticleCall<A>)
    ensures
        call@ == ArticleCallView::<A>::Get(id@),
{
    ArticleCall::Get(String::from_str(id))
}

/// Update the article with identifier `id` to `article`. An empty identifier
/// is answered with the client-error envelope, and the gateway is not called.
pub fn update_article<A, T>(id: &str, article: A) -> (step: Step<ArticleCall<A>, T>)
    ensures
        step@ == checked_step::<A, T>(id@, ArticleCallView::Update(id@, article)),
{
    if id.is_empty() {
        Step::Respond(ResultEnvelope::from_validation(&ValidationError::EmptyId))
    } else {
        Step::Call(ArticleCall::Update(String::from_str(id), article))
    }
}

/// Delete the article with identifier `id`. An empty identifier is answered
/// with the client-error envelope, and the gateway is not called.
pub fn remove_article<A, T>(id: &str) -> (step: Step<ArticleCall<A>, T>)
    ensures
        step@ == checked_step::<A, T>(id@, ArticleCallView::Remove(id@)),
{
    if id.is_empty() {
        Step::Respond(ResultEnvelope::from_validation(&ValidationError::EmptyId))
    } else {
        Step::Call(ArticleCall::Remove(String::from_str(id)))
    }
}

/// Create a quote: the gateway is to save `quote` as it came.
pub fn save_quote<Q>(quote: Q) -> (call: QuoteCall<Q>)
    ensures
        call == QuoteCall::Save(quote),
{
    QuoteCall::Save(quote)
}

/// Fetch one quote, which the gateway picks.
pub fn random_quote<Q>() -> (call: QuoteCall<Q>)
    ensures
        call == QuoteCall::<Q>::Random,
{
    QuoteCall::Random
}

/// Answers the list of recent articles from what the gateway gave: the
/// records in the gateway's order, and never more than `RECENT_ARTICLE_NUM`
/// of them, whatever the gateway handed over.
pub fn answer_recent<A>(outcome: Result<Vec<A>, DomainError>) -> (envelope: ResultEnvelope<Vec<A>>)
    ensures
        envelope@.code == envelope_of(outcome).code,
        envelope@.message == envelope_of(outcome).message,
        outcome matches Ok(records) ==> (envelope@.data matches Some(list) && list@ == recent_of(
            records@,
        )),
        outcome is Err ==> envelope@.data is None,
{
    match outcome {
        Ok(records) => {
            let mut list = records;
            list.truncate(RECENT_ARTICLE_NUM);
            assert(list@ =~= recent_of(records@));
            ResultEnvelope::ok(list)
        },
        Err(error) => ResultEnvelope::from_domain(&error),
    }
}

/// Whom a greeting names: the name that came, or the world.
pub open spec fn greeted(name: Option<&str>) -> Seq<char> {
    match name {
        Some(given) => given@,
        None => "World"@,
    }
}

/// The greeting for `name`, or for the world where no name came.
pub fn greet(name: Option<&str>) -> (greeting: String)
    ensures
        greeting@ == "Hello "@ + greeted(name),
{
    let mut greeting = String::from_str("Hello ");
    match name {
        Some(given) => greeting.append(given),
        None => greeting.append("World"),
    }
    greeting
}

/// A request with an empty identifier never becomes a gateway call: it is
/// answered with an envelope whose code is not 0 and which has no payload.
pub proof fn lemma_empty_id_never_reaches_gateway<A, T>(call: ArticleCallView<A>)
    ensures
        checked_step::<A, T>(Seq::empty(), call) matches StepView::Respond(envelope)
            && envelope.code != 0 && envelope.data is None,
{
}

/// A request with an identifier becomes exactly the call it asks for.
pub proof fn lemma_given_id_reaches_gateway<A, T>(id: Seq<char>, call: ArticleCallView<A>)
    requires
        id.len() > 0,
    ensures
        checked_step::<A, T>(id, call) == StepView::<A, T>::Call(call),
{
}

/// The list of recent articles never holds more than `RECENT_ARTICLE_NUM`
/// records, and it is a start of the gateway's list.
pub proof fn lemma_recent_is_bounded<A>(records: Seq<A>)
    ensures
        recent_of(records).len() <= RECENT_ARTICLE_NUM,
        recent_of(records).is_prefix_of(records),
        records.len() <= RECENT_ARTICLE_NUM ==> recent_of(records) == records,
{
    assert(recent_of(records) =~= records.subrange(0, recent_of(records).len() as int));
}

} // verus!
