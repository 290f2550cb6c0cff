use vstd::prelude::*;
use crate::foreign::{regex_captures, spec_regex_captures};
use crate::text::opt_view;

pub mod microsoft;

verus! {

/// The pattern of a query parameter: a name of word characters, then
/// optionally `=` and a value that holds no `&`.
pub const QUERY_PARAM_PATTERN: &'static str = r"(\w+)(?:=([^&]*))?";

/// The pieces of a text between the `&` that separate them, as
/// `str::split('&')` yields them (an empty text is one empty piece).
pub open spec fn split_on_ampersand(s: Seq<char>) -> Seq<Seq<char>>
    decreases s.len(),
{
    if s.len() == 0 {
        seq![Seq::<char>::empty()]
    } else {
        let pieces = split_on_ampersand(s.drop_last());
        if s.last() == '&' {
            pieces.push(Seq::<char>::empty())
        } else {
            pieces.update(pieces.len() - 1, pieces.last().push(s.last()))
        }
    }
}

/// The parameters read from a sequence of `name=value` pieces: each piece
/// that the parameter pattern matches sets its name to its value (or to
/// `None` where it has no `=`), a later piece overriding an earlier one of
/// the same name; the other pieces are passed over.
pub open spec fn params_of(pieces: Seq<Seq<char>>) -> Map<Seq<char>, Option<Seq<char>>>
    decreases pieces.len(),
{
    if pieces.len() == 0 {
        Map::empty()
    } else {
        let m = params_of(pieces.drop_last());
        match spec_regex_captures(QUERY_PARAM_PATTERN@, pieces.last()) {
            Some((Some(name), value)) => m.insert(name, value),
            _ => m,
        }
    }
}

/// The parameters of a query string.
pub open spec fn spec_parse_query(query: Seq<char>) -> Map<Seq<char>, Option<Seq<char>>> {
    params_of(split_on_ampersand(query))
}

/// The map that a sequence of insertions builds, later ones overriding.
pub open spec fn entries_map(e: Seq<(String, Option<String>)>) -> Map<Seq<char>, Option<Seq<char>>>
    decreases e.len(),
{
    if e.len() == 0 {
        Map::empty()
    } else {
        entries_map(e.drop_last()).insert(e.last().0@, opt_view(e.last().1))
    }
}

/// The parameters of a query: names, each with an optional value.
pub struct QueryParams {
    entries: Vec<(String, Option<String>)>,
}

impl View for QueryParams {
    type V = Map<Seq<char>, Option<Seq<char>>>;

    closed spec fn view(&self) -> Map<Seq<char>, Option<Seq<char>>> {
        entries_map(self.entries@)
    }
}

proof fn lemma_entries_map_last(e: Seq<(String, Option<String>)>, i: int, name: Seq<char>)
    requires
        0 <= i < e.len(),
        e[i].0@ == name,
        forall|j: int| i < j < e.len() ==> e[j].0@ != name,
    ensures
        entries_map(e).contains_key(name),
        entries_map(e)[name] == opt_view(e[i].1),
    decreases e.len(),
{
    if i < e.len() - 1 {
        lemma_entries_map_last(e.drop_last(), i, name);
    }
}

proof fn lemma_entries_map_absent(e: Seq<(String, Option<String>)>, name: Seq<char>)
    requires
        forall|j: int| 0 <= j < e.len() ==> e[j].0@ != name,
    ensures
        !entries_map(e).contains_key(name),
    decreases e.len(),
{
    if e.len() > 0 {
        lemma_entries_map_absent(e.drop_last(), name);
    }
}

impl QueryParams {
    /// The value of the parameter `name`: `None` where there is no such
    /// parameter, `Some(None)` where it has no value.
    pub fn get(&self, name: &str) -> (r: Option<Option<String>>)
        ensures
            match r {
                Some(v) => self@.contains_key(name@) && self@[name@] == opt_view(v),
                None => !self@.contains_key(name@),
            },
    {
        let key = name.to_owned();
        let mut i = self.entries.len();
        while i > 0
            invariant
                i <= self.entries@.len(),
                key@ == name@,
                forall|j: int| i <= j < self.entries@.len() ==> self.entries@[j].0@ != name@,
            decreases i,
        {
            i = i - 1;
            if self.entries[i].0 == key {
                proof { lemma_entries_map_last(self.entries@, i as int, name@); }
                let v = match &self.entries[i].1 {
                    Some(s) => Some(s.clone()),
                    None => None,
                };
                return Some(v);
            }
        }
        proof { lemma_entries_map_absent(self.entries@, name@); }
        None
    }
}

/// Splits a text at each `&`.
fn split_ampersand(s: &str) -> (r: Vec<String>)
    ensures
        r@.map_values(|p: String| p@) == split_on_ampersand(s@),
{
    let n = s.unicode_len();
    let mut pieces: Vec<String> = Vec::new();
    let mut start: usize = 0;
    let mut i: usize = 0;
    proof {
        assert(s@.take(0) =~= Seq::<char>::empty());
        assert(s@.subrange(0, 0) =~= Seq::<char>::empty());
        assert(pieces@.map_values(|p: String| p@).push(s@.subrange(0, 0)) =~= seq![Seq::<char>::empty()]);
    }
    while i < n
        invariant
            n == s@.len(),
            start <= i <= n,
            split_on_ampersand(s@.take(i as int)) == pieces@.map_values(|p: String| p@).push(s@.subrange(start as int, i as int)),
        decreases n - i,
    {
        let c = s.get_char(i);
        proof {
            assert(s@.take(i + 1).drop_last() =~= s@.take(i as int));
            assert(s@.take(i + 1).last() == c);
        }
        if c == '&' {
            let piece = s.substring_char(start, i);
            let ghost before = pieces@.map_values(|p: String| p@);
            pieces.push(piece.to_owned());
            proof {
                assert(pieces@.map_values(|p: String| p@) =~= before.push(s@.subrange(start as int, i as int)));
                assert(s@.subrange(i + 1, i + 1) =~= Seq::<char>::empty());
            }
            start = i + 1;
        } else {
            proof {
                assert(s@.subrange(start as int, i + 1) =~= s@.subrange(start as int, i as int).push(c));
                let before = pieces@.map_values(|p: String| p@).push(s@.subrange(start as int, i as int));
                assert(before.update(before.len() - 1, before.last().push(c)) =~= pieces@.map_values(|p: String| p@).push(
                    s@.subrange(start as int, i + 1),
                ));
            }
        }
        i = i + 1;
    }
    let last = s.substring_char(start, n);
    pieces.push(last.to_owned());
    proof {
        assert(s@.take(n as int) =~= s@);
    }
    assert(pieces@.map_values(|p: String| p@) =~= split_on_ampersand(s@));
    pieces
}

/// Reads the parameters of a query string: the pieces between `&` are
/// matched one by one against [`QUERY_PARAM_PATTERN`], and each
/// match sets its name to its value, later ones overriding earlier ones.
pub fn parse_query(query: &str) -> (r: QueryParams)
    ensures
        r@ == spec_parse_query(query@),
{
    let pieces = split_ampersand(query);
    let ghost views = pieces@.map_values(|p: String| p@);
    let mut entries: Vec<(String, Option<String>)> = Vec::new();
    let mut i: usize = 0;
    while i < pieces.len()
        invariant
            views == pieces@.map_values(|p: String| p@),
            i <= pieces@.len(),
            entries_map(entries@) == params_of(views.take(i as int)),
        decreases pieces@.len() - i,
    {
        proof {
            assert(views.take(i + 1).drop_last() =~= views.take(i as int));
            assert(views.take(i + 1).last() == pieces@[i as int]@);
        }
        match regex_captures(QUERY_PARAM_PATTERN, pieces[i].as_str()) {
            Some((Some(name), value)) => {
                let ghost before = entries@;
                entries.push((name, value));
                proof {
                    assert(entries@.drop_last() =~= before);
                }
            },
            _ => {},
        }
        i = i + 1;
    }
    assert(views.take(pieces@.len() as int) =~= views);
    QueryParams { entries }
}

/// Where the local web server sends a request.
#[derive(Clone, Copy, Debug, PartialEq, Eq, Structural)]
pub enum Route {
    /// The page to which Microsoft's login redirects.
    MicrosoftAuth,
    /// Any other path: answered with "not found".
    NotFound,
}

/// The route for a request path.
pub fn route(path: &str) -> (r: Route)
    ensures
        r == if path@ == "/microsoft-auth"@ { Route::MicrosoftAuth } else { Route::NotFound },
{
    if crate::text::str_eq(path, "/microsoft-auth") {
        Route::MicrosoftAuth
    } else {
        Route::NotFound
    }
}

} // verus!
