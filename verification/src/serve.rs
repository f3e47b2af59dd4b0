//! What the service decides for a request: which route it takes, which file
//! or registry call answers it, and what goes back.

use crate::state::{
    after_loss, after_win, is_match, is_random_id, source_of, FighterRecord, Match, MatchView,
    ServerState,
};
use std::str::FromStr;
use vstd::arithmetic::power::pow;
use vstd::prelude::*;
use vstd::string::{StrSliceExecFns, StringExecFns};

verus! {

/// The characters of `text`, one by one.
pub fn chars_of(text: &str) -> (chars: Vec<char>)
    ensures
        chars@ == text@,
{
    let mut chars: Vec<char> = Vec::new();
    for c in it: text.chars()
        invariant
            it.seq() == text@,
            chars@ == it.seq().take(it.index()),
    {
        chars.push(c);
    }
    chars
}

/// Whether the first characters of `text` are those of `wanted`.
fn begins(text: &Vec<char>, wanted: &Vec<char>) -> (yes: bool)
    ensures
        yes == wanted@.is_prefix_of(text@),
{
    if wanted.len() > text.len() {
        return false;
    }
    let mut i: usize = 0;
    while i < wanted.len()
        invariant
            i <= wanted.len() <= text.len(),
            forall|j: int| 0 <= j < i ==> text[j] == wanted[j],
        decreases wanted.len() - i,
    {
        if text[i] != wanted[i] {
            return false;
        }
        i += 1;
    }
    assert(wanted@ =~= text@.subrange(0, wanted@.len() as int));
    true
}

/// Whether `text` begins with `prefix`.
pub fn starts_with(text: &Vec<char>, prefix: &str) -> (yes: bool)
    ensures
        yes == prefix@.is_prefix_of(text@),
{
    let wanted = chars_of(prefix);
    begins(text, &wanted)
}

/// Whether `text` ends with `suffix`.
pub fn ends_with(text: &Vec<char>, suffix: &str) -> (yes: bool)
    ensures
        yes == suffix@.is_suffix_of(text@),
{
    let wanted = chars_of(suffix);
    if wanted.len() > text.len() {
        return false;
    }
    let skipped = text.len() - wanted.len();
    let mut i: usize = 0;
    while i < wanted.len()
        invariant
            i <= wanted.len() <= text.len(),
            skipped == text.len() - wanted.len(),
            wanted@ == suffix@,
            forall|j: int| 0 <= j < i ==> text[skipped + j] == wanted[j],
        decreases wanted.len() - i,
    {
        if text[skipped + i] != wanted[i] {
            assert(text@.subrange(skipped as int, text.len() as int)[i as int] != wanted@[i as int]);
            return false;
        }
        i += 1;
    }
    assert(wanted@ =~= text@.subrange(skipped as int, text.len() as int));
    true
}

/// Whether `text` reads exactly `wanted`.
pub fn reads(text: &Vec<char>, wanted: &str) -> (yes: bool)
    ensures
        yes == (text@ == wanted@),
{
    let wanted = chars_of(wanted);
    if wanted.len() == text.len() && begins(text, &wanted) {
        assert(text@ =~= wanted@);
        true
    } else {
        false
    }
}

/// The request methods that the service tells apart.
#[derive(Clone, Copy, Debug, PartialEq, Eq, Structural)]
pub enum Method {
    Get,
    Post,
    Other,
}

/// Where a request goes.
#[derive(Clone, Copy, Debug, PartialEq, Eq, Structural)]
pub enum Route {
    /// The landing page
    Index,
    /// The page where scripts are written
    Dojo,
    /// The page where a battle is shown
    Battle,
    /// The script of one fighter
    GetSource,
    /// The leaderboard page
    Leaderboard,
    /// The rankings, which the service does not answer yet
    Rankings,
    /// One more loss for a fighter
    Lose,
    /// One more win for a fighter
    Win,
    /// A new match for a fighter
    Create,
    /// A file of the battle engine
    Wasm,
    /// The site's icon
    Favicon,
    /// A script to register or to replace
    Register,
    /// A file of the front end
    Frontend,
    /// No route of the service
    Unknown,
}

/// The route of a request with `method` for `path`.
pub open spec fn route_of(method: Method, path: Seq<char>) -> Route {
    match method {
        Method::Get => {
            if path == "/"@ {
                Route::Index
            } else if path == "/dojo"@ {
                Route::Dojo
            } else if path == "/battle"@ {
                Route::Battle
            } else if path == "/get"@ {
                Route::GetSource
            } else if path == "/leaderboard"@ {
                Route::Leaderboard
            } else if path == "/rankings"@ {
                Route::Rankings
            } else if path == "/lose"@ {
                Route::Lose
            } else if path == "/win"@ {
                Route::Win
            } else if path == "/create"@ {
                Route::Create
            } else if "/wasm"@.is_prefix_of(path) {
                Route::Wasm
            } else if path == "/favicon.ico"@ {
                Route::Favicon
            } else if "/frontend/"@.is_prefix_of(path) {
                Route::Frontend
            } else {
                Route::Unknown
            }
        },
        Method::Post => {
            if path == "/register"@ {
                Route::Register
            } else {
                Route::Unknown
            }
        },
        Method::Other => Route::Unknown,
    }
}

/// Finds the route of a request.
pub fn route(method: Method, path: &str) -> (found: Route)
    ensures
        found == route_of(method, path@),
{
    let text = chars_of(path);
    match method {
        Method::Get => {
            if reads(&text, "/") {
                Route::Index
            } else if reads(&text, "/dojo") {
                Route::Dojo
            } else if reads(&text, "/battle") {
                Route::Battle
            } else if reads(&text, "/get") {
                Route::GetSource
            } else if reads(&text, "/leaderboard") {
                Route::Leaderboard
            } else if reads(&text, "/rankings") {
                Route::Rankings
            } else if reads(&text, "/lose") {
                Route::Lose
            } else if reads(&text, "/win") {
                Route::Win
            } else if reads(&text, "/create") {
                Route::Create
            } else if starts_with(&text, "/wasm") {
                Route::Wasm
            } else if reads(&text, "/favicon.ico") {
                Route::Favicon
            } else if starts_with(&text, "/frontend/") {
                Route::Frontend
            } else {
                Route::Unknown
            }
        },
        Method::Post => {
            if reads(&text, "/register") {
                Route::Register
            } else {
                Route::Unknown
            }
        },
        Method::Other => Route::Unknown,
    }
}

/// The content types that the service labels files with.
#[derive(Clone, Copy, Debug, PartialEq, Eq, Structural)]
pub enum ContentType {
    Javascript,
    Wasm,
    Css,
}

impl ContentType {
    /// The header value of the content type.
    pub fn as_str(self) -> (value: &'static str)
        ensures
            value@ == match self {
                ContentType::Javascript => "text/javascript"@,
                ContentType::Wasm => "application/wasm"@,
                ContentType::Css => "text/css"@,
            },
    {
        match self {
            ContentType::Javascript => "text/javascript",
            ContentType::Wasm => "application/wasm",
            ContentType::Css => "text/css",
        }
    }
}

/// The content type that a file served on `route` for `path` is labelled
/// with, if any.
pub open spec fn content_type_of(route: Route, path: Seq<char>) -> Option<ContentType> {
    match route {
        Route::Wasm => {
            if "js"@.is_suffix_of(path) {
                Some(ContentType::Javascript)
            } else if "wasm"@.is_suffix_of(path) {
                Some(ContentType::Wasm)
            } else {
                None
            }
        },
        Route::Frontend => {
            if "css"@.is_suffix_of(path) {
                Some(ContentType::Css)
            } else {
                None
            }
        },
        _ => None,
    }
}

/// Picks the content type of the file that answers a request.
pub fn content_type(route: Route, path: &str) -> (label: Option<ContentType>)
    ensures
        label == content_type_of(route, path@),
{
    match route {
        Route::Wasm => {
            let text = chars_of(path);
            if ends_with(&text, "js") {
                Some(ContentType::Javascript)
            } else if ends_with(&text, "wasm") {
                Some(ContentType::Wasm)
            } else {
                None
            }
        },
        Route::Frontend => {
            let text = chars_of(path);
            if ends_with(&text, "css") {
                Some(ContentType::Css)
            } else {
                None
            }
        },
        _ => None,
    }
}

/// The file that answers a request on `route` for `path`, if a file does:
/// a fixed page, or the file that the path names below `frontend`.
pub open spec fn asset_of(route: Route, path: Seq<char>) -> Option<Seq<char>> {
    match route {
        Route::Index => Some("frontend/index.html"@),
        Route::Dojo => Some("frontend/dojo.html"@),
        Route::Battle => Some("frontend/battle.html"@),
        Route::Leaderboard => Some("frontend/leaderboard.html"@),
        Route::Favicon => Some("frontend/favicon.ico"@),
        Route::Wasm => Some("frontend"@ + path),
        Route::Frontend => if path.len() > 0 {
            Some(path.skip(1))
        } else {
            None
        },
        _ => None,
    }
}

/// Names the file that answers a request.
pub fn asset(route: Route, path: &str) -> (name: Option<String>)
    ensures
        match name {
            Some(name) => asset_of(route, path@) == Some(name@),
            None => asset_of(route, path@) is None,
        },
{
    match route {
        Route::Index => Some("frontend/index.html".to_owned()),
        Route::Dojo => Some("frontend/dojo.html".to_owned()),
        Route::Battle => Some("frontend/battle.html".to_owned()),
        Route::Leaderboard => Some("frontend/leaderboard.html".to_owned()),
        Route::Favicon => Some("frontend/favicon.ico".to_owned()),
        Route::Wasm => Some("frontend".to_owned().concat(path)),
        Route::Frontend => {
            let len = path.unicode_len();
            if len > 0 {
                Some(path.substring_char(1, len).to_owned())
            } else {
                None
            }
        },
        _ => None,
    }
}

/// The name and the value of each pair, as texts.
pub open spec fn texts(pairs: Seq<(String, String)>) -> Seq<(Seq<char>, Seq<char>)> {
    pairs.map_values(|pair: (String, String)| (pair.0@, pair.1@))
}

/// The map that a list of named values stands for: each name with the value
/// it was given last.
pub open spec fn collected(pairs: Seq<(Seq<char>, Seq<char>)>) -> Map<Seq<char>, Seq<char>>
    decreases pairs.len(),
{
    if pairs.len() == 0 {
        Map::empty()
    } else {
        collected(pairs.drop_last()).insert(pairs.last().0, pairs.last().1)
    }
}

/// A name that no pair from position `from` on carries has the value that the
/// pairs before `from` give it.
pub proof fn lemma_collected_skips_other_names(
    pairs: Seq<(Seq<char>, Seq<char>)>,
    name: Seq<char>,
    from: int,
)
    requires
        0 <= from <= pairs.len(),
        forall|j: int| from <= j < pairs.len() ==> (#[trigger] pairs[j]).0 != name,
    ensures
        collected(pairs).contains_key(name) == collected(pairs.take(from)).contains_key(name),
        collected(pairs).contains_key(name) ==> collected(pairs)[name] == collected(
            pairs.take(from),
        )[name],
    decreases pairs.len(),
{
    if from == pairs.len() {
        assert(pairs.take(from) == pairs);
    } else {
        lemma_collected_skips_other_names(pairs.drop_last(), name, from);
        assert(pairs.drop_last().take(from) == pairs.take(from));
    }
}

/// The named values of a request, in the order they were given. A name that
/// was given more than once has the value it was given last.
#[derive(Debug)]
pub struct Params {
    pub pairs: Vec<(String, String)>,
}

impl View for Params {
    type V = Map<Seq<char>, Seq<char>>;

    open spec fn view(&self) -> Map<Seq<char>, Seq<char>> {
        collected(texts(self.pairs@))
    }
}

impl Params {
    /// The value of `name`, if the request gave one.
    pub fn get(&self, name: &str) -> (value: Option<&String>)
        ensures
            match value {
                Some(text) => self@.contains_key(name@) && self@[name@] == text@,
                None => !self@.contains_key(name@),
            },
    {
        let wanted = name.to_owned();
        let ghost all = texts(self.pairs@);
        let mut i: usize = self.pairs.len();
        while i > 0
            invariant
                i <= self.pairs.len(),
                wanted@ == name@,
                all == texts(self.pairs@),
                forall|j: int| i <= j < all.len() ==> (#[trigger] all[j]).0 != name@,
            decreases i,
        {
            i -= 1;
            if self.pairs[i].0 == wanted {
                proof {
                    lemma_collected_skips_other_names(all, name@, i + 1);
                    assert(all.take(i + 1).drop_last() == all.take(i as int));
                    assert(all.take(i + 1).last() == all[i as int]);
                }
                return Some(&self.pairs[i].1);
            }
        }
        proof {
            lemma_collected_skips_other_names(all, name@, 0);
            assert(all.take(0).len() == 0);
        }
        None
    }
}

/// What the `url` crate reads out of the text of a URL: nothing where the
/// text is no absolute URL, else the names and values of its query, decoded,
/// in their order.
pub uninterp spec fn url_query_pairs(url: Seq<char>) -> Option<Seq<(Seq<char>, Seq<char>)>>;

/// Reads the named values out of the query of a URL.
///
/// Trusted: calls `url::Url::parse` and, where that succeeds,
/// `Url::query_pairs`, whose pairs are copied out as owned strings. The
/// contract only gives that result its name: it depends on the text alone.
#[verifier::external_body]
fn parse_query(url: &str) -> (pairs: Option<Vec<(String, String)>>)
    ensures
        match pairs {
            Some(pairs) => url_query_pairs(url@) == Some(texts(pairs@)),
            None => url_query_pairs(url@) is None,
        },
{
    match url::Url::parse(url) {
        Ok(parsed) => Some(parsed.query_pairs().into_owned().collect()),
        Err(_) => None,
    }
}

/// What the `url` crate reads out of a body in the
/// `application/x-www-form-urlencoded` syntax: its names and values, decoded,
/// in their order.
pub uninterp spec fn form_pairs(body: Seq<u8>) -> Seq<(Seq<char>, Seq<char>)>;

/// Reads the named values out of a form body.
///
/// Trusted: calls `url::form_urlencoded::parse`, whose pairs are copied out
/// as owned strings. The contract only gives that result its name: it depends
/// on the bytes alone.
#[verifier::external_body]
fn parse_form(body: &[u8]) -> (pairs: Vec<(String, String)>)
    ensures
        texts(pairs@) == form_pairs(body@),
{
    url::form_urlencoded::parse(body).into_owned().collect()
}

/// The text that every request target is appended to before it is parsed.
pub open spec fn site() -> Seq<char> {
    "https://site.com/"@
}

/// Creates a map for all query params of a request target, or nothing where
/// the target cannot be parsed.
pub fn generate_query_map(uri: String) -> (queries: Option<Params>)
    ensures
        match queries {
            Some(found) => url_query_pairs(site() + uri@) == Some(texts(found.pairs@)),
            None => url_query_pairs(site() + uri@) is None,
        },
{
    let url = "https://site.com/".to_owned().concat(uri.as_str());
    match parse_query(url.as_str()) {
        Some(pairs) => Some(Params { pairs }),
        None => None,
    }
}

/// Reads the named values of a form body.
pub fn form_params(body: &[u8]) -> (params: Params)
    ensures
        texts(params.pairs@) == form_pairs(body@),
{
    Params { pairs: parse_form(body) }
}

/// The digit at position `k` of `id` written with 32 hexadecimal digits,
/// the most significant first.
pub open spec fn hex_digit(id: u128, k: int) -> char {
    seq![
        '0', '1', '2', '3', '4', '5', '6', '7', '8', '9', 'a', 'b', 'c', 'd', 'e', 'f',
    ][(id as int / pow(16, (31 - k) as nat)) % 16]
}

/// The text of an identifier: its 32 hexadecimal digits in lower case, in
/// groups of 8, 4, 4, 4 and 12 with a hyphen between them.
pub open spec fn hyphenated(id: u128) -> Seq<char> {
    Seq::new(8, |k: int| hex_digit(id, k)) + seq!['-'] + Seq::new(
        4,
        |k: int| hex_digit(id, 8 + k),
    ) + seq!['-'] + Seq::new(4, |k: int| hex_digit(id, 12 + k)) + seq!['-'] + Seq::new(
        4,
        |k: int| hex_digit(id, 16 + k),
    ) + seq!['-'] + Seq::new(12, |k: int| hex_digit(id, 20 + k))
}

/// Writes an identifier as text.
///
/// Trusted: builds the identifier with `uuid::Uuid::from_u128` and writes it
/// with its `Display`, which gives the hyphenated form in lower case: the
/// bytes of the number, most significant first, two digits each.
#[verifier::external_body]
fn write_uuid(id: u128) -> (text: String)
    ensures
        text@ == hyphenated(id),
{
    uuid::Uuid::from_u128(id).to_string()
}

/// The identifier that the `uuid` crate reads out of a text, if it reads
/// one.
pub uninterp spec fn id_of_text(text: Seq<char>) -> Option<u128>;

/// Reads an identifier out of a text.
///
/// Trusted: calls `uuid::Uuid::from_str` and reads the identifier as a number
/// with `Uuid::as_u128`. The parser takes several forms of text; the contract
/// only gives its result a name: it depends on the text alone.
#[verifier::external_body]
fn read_uuid(text: &str) -> (id: Option<u128>)
    ensures
        id == id_of_text(text@),
{
    match uuid::Uuid::from_str(text) {
        Ok(parsed) => Some(parsed.as_u128()),
        Err(_) => None,
    }
}

/// Why a request is not answered.
#[derive(Clone, Copy, Debug, PartialEq, Eq, Structural)]
pub enum Refusal {
    /// The request target is no part of a URL
    BadTarget,
    /// The request names no fighter
    MissingId,
    /// The request carries no script
    MissingCode,
    /// The text that should name a fighter is no identifier
    BadId,
    /// No fighter has the identifier
    NotFound,
    /// The fighter's tally cannot count further
    TallyFull,
}

/// The identifier that named values give under `id`.
pub open spec fn named_id(params: Map<Seq<char>, Seq<char>>) -> Result<u128, Refusal> {
    if !params.contains_key("id"@) {
        Err(Refusal::MissingId)
    } else {
        match id_of_text(params["id"@]) {
            Some(id) => Ok(id),
            None => Err(Refusal::BadId),
        }
    }
}

/// The identifier of the fighter that a request for `uri` names.
pub open spec fn requested_id(uri: Seq<char>) -> Result<u128, Refusal> {
    match url_query_pairs(site() + uri) {
        Some(pairs) => named_id(collected(pairs)),
        None => Err(Refusal::BadTarget),
    }
}

/// Reads the identifier that named values give under `id`.
pub fn id_param(params: &Params) -> (id: Result<u128, Refusal>)
    ensures
        id == named_id(params@),
{
    match params.get("id") {
        Some(text) => match read_uuid(text.as_str()) {
            Some(id) => Ok(id),
            None => Err(Refusal::BadId),
        },
        None => Err(Refusal::MissingId),
    }
}

/// Reads the identifier of the fighter that a request names.
pub fn requested(uri: String) -> (id: Result<u128, Refusal>)
    ensures
        id == requested_id(uri@),
{
    match generate_query_map(uri) {
        Some(queries) => id_param(&queries),
        None => Err(Refusal::BadTarget),
    }
}

/// Answers a request for the script of a fighter: the script, or the empty
/// text where the fighter is unknown.
pub fn get_source(state: &ServerState, uri: String) -> (reply: Result<String, Refusal>)
    ensures
        match requested_id(uri@) {
            Ok(id) => reply matches Ok(text) && text@ == match source_of(state@, id) {
                Some(source) => source,
                None => Seq::empty(),
            },
            Err(refusal) => reply == Err::<String, Refusal>(refusal),
        },
{
    let id = match requested(uri) {
        Ok(id) => id,
        Err(refusal) => {
            return Err(refusal);
        },
    };
    match state.get_source(id) {
        Some(source) => Ok(source),
        None => Ok(String::new()),
    }
}

/// Answers a request to record a win.
pub fn record_win(state: &mut ServerState, uri: String) -> (reply: Result<(), Refusal>)
    ensures
        match requested_id(uri@) {
            Ok(id) => if old(state)@.contains_key(id) && old(state)@[id].wins == usize::MAX {
                reply == Err::<(), Refusal>(Refusal::TallyFull) && final(state)@ == old(state)@
            } else {
                reply is Ok && final(state)@ == after_win(old(state)@, id)
            },
            Err(refusal) => reply == Err::<(), Refusal>(refusal) && final(state)@ == old(
                state,
            )@,
        },
{
    let id = match requested(uri) {
        Ok(id) => id,
        Err(refusal) => {
            return Err(refusal);
        },
    };
    match state.fighters.get(&id) {
        Some(fighter) => {
            if fighter.wins == usize::MAX {
                return Err(Refusal::TallyFull);
            }
        },
        None => {},
    }
    state.win(id);
    Ok(())
}

/// Answers a request to record a loss.
pub fn record_loss(state: &mut ServerState, uri: String) -> (reply: Result<(), Refusal>)
    ensures
        match requested_id(uri@) {
            Ok(id) => if old(state)@.contains_key(id) && old(state)@[id].losses == usize::MAX {
                reply == Err::<(), Refusal>(Refusal::TallyFull) && final(state)@ == old(state)@
            } else {
                reply is Ok && final(state)@ == after_loss(old(state)@, id)
            },
            Err(refusal) => reply == Err::<(), Refusal>(refusal) && final(state)@ == old(
                state,
            )@,
        },
{
    let id = match requested(uri) {
        Ok(id) => id,
        Err(refusal) => {
            return Err(refusal);
        },
    };
    match state.fighters.get(&id) {
        Some(fighter) => {
            if fighter.losses == usize::MAX {
                return Err(Refusal::TallyFull);
            }
        },
        None => {},
    }
    state.lose(id);
    Ok(())
}

/// Answers a request for a new match.
pub fn create(state: &ServerState, uri: String) -> (reply: Result<Match, Refusal>)
    ensures
        match requested_id(uri@) {
            Ok(id) => if state@.contains_key(id) {
                reply matches Ok(made) && exists|lineup: Seq<FighterRecord>|
                    #[trigger] is_match(state@, id, lineup) && made@ == MatchView::of(lineup)
            } else {
                reply matches Err(refusal) && refusal == Refusal::NotFound
            },
            Err(refusal) => reply matches Err(given) && given == refusal,
        },
{
    let id = match requested(uri) {
        Ok(id) => id,
        Err(refusal) => {
            return Err(refusal);
        },
    };
    match state.create_match(id) {
        Ok(made) => Ok(made),
        Err(_) => Err(Refusal::NotFound),
    }
}

/// The script that a form body submits, and the identifier it is submitted
/// under, if the body names one.
pub open spec fn submitted(body: Seq<u8>) -> Result<(Seq<char>, Option<u128>), Refusal> {
    let params = collected(form_pairs(body));
    if !params.contains_key("code"@) {
        Err(Refusal::MissingCode)
    } else if !params.contains_key("id"@) {
        Ok((params["code"@], None))
    } else {
        match id_of_text(params["id"@]) {
            Some(id) => Ok((params["code"@], Some(id))),
            None => Err(Refusal::BadId),
        }
    }
}

/// Answers a request that submits a script: registers it, or replaces the
/// script of the fighter that the body names, and replies with the text of
/// the identifier that the script now has.
pub fn register(state: &mut ServerState, body: &[u8]) -> (reply: Result<String, Refusal>)
    ensures
        match submitted(body@) {
            Ok((code, existing)) => reply matches Ok(text) && exists|kept: u128|
                {
                    &&& text@ == #[trigger] hyphenated(kept)
                    &&& final(state)@ == old(state)@.insert(kept, FighterRecord::fresh(code))
                    &&& match existing {
                        Some(id) if old(state)@.contains_key(id) => kept == id,
                        _ => is_random_id(kept),
                    }
                },
            Err(refusal) => reply == Err::<String, Refusal>(refusal) && final(state)@ == old(
                state,
            )@,
        },
{
    let params = form_params(body);
    let code = match params.get("code") {
        Some(code) => code,
        None => {
            return Err(Refusal::MissingCode);
        },
    };
    let existing = match params.get("id") {
        Some(text) => match read_uuid(text.as_str()) {
            Some(id) => Some(id),
            None => {
                return Err(Refusal::BadId);
            },
        },
        None => None,
    };
    let kept = state.submit(code.as_str(), existing);
    Ok(write_uuid(kept))
}

} // verus!
