//! Flattening of device description documents into path/text pairs.
use vstd::prelude::*;
use xml::reader::XmlEvent;

verus! {

/// One event of an XML document, as the logic below sees it.
pub enum XmlToken {
    Start(String),
    End(String),
    Characters(String),
    CData(String),
    Other,
}

/// The mathematical form of an `XmlToken`: character data and CDATA are both text.
pub ghost enum XmlTok {
    Start(Seq<char>),
    End(Seq<char>),
    Text(Seq<char>),
    Other,
}

impl XmlToken {
    pub open spec fn view(&self) -> XmlTok {
        match self {
            XmlToken::Start(n) => XmlTok::Start(n@),
            XmlToken::End(n) => XmlTok::End(n@),
            XmlToken::Characters(t) => XmlTok::Text(t@),
            XmlToken::CData(t) => XmlTok::Text(t@),
            XmlToken::Other => XmlTok::Other,
        }
    }
}

pub open spec fn tokens_view(v: Seq<XmlToken>) -> Seq<XmlTok> {
    v.map_values(|t: XmlToken| t@)
}

/// The events that the XML reader produces for a document, or `None` when it
/// reports an error before the end.
pub uninterp spec fn xml_events_of(doc: Seq<char>) -> Option<Seq<XmlTok>>;

/// Relies on xml-rs (`xml::reader::EventReader`): the events of a document, in
/// order, or its first error. They depend on the text alone.
#[verifier::external_body]
fn xml_events(doc: &str) -> (r: Result<Vec<XmlToken>, String>)
    ensures
        match r {
            Ok(v) => xml_events_of(doc@) == Some(tokens_view(v@)),
            Err(_) => xml_events_of(doc@).is_none(),
        },
{
    xml::reader::EventReader::from_str(doc).into_iter().map(|e| match e {
        Ok(XmlEvent::StartElement { name, .. }) => Ok(XmlToken::Start(name.local_name)),
        Ok(XmlEvent::EndElement { name }) => Ok(XmlToken::End(name.local_name)),
        Ok(XmlEvent::Characters(t)) => Ok(XmlToken::Characters(t)),
        Ok(XmlEvent::CData(t)) => Ok(XmlToken::CData(t)),
        Ok(_) => Ok(XmlToken::Other),
        Err(err) => Err(err.to_string()),
    }).collect()
}

/// Why a description could not be flattened.
pub enum DescriptionError {
    /// The XML reader refused the document.
    Syntax(String),
    /// An element closed while no element was open.
    UnbalancedEnd { element: String },
}

pub type PathText = Seq<(Seq<char>, Seq<char>)>;

pub open spec fn pairs_view(v: Seq<(String, String)>) -> PathText {
    v.map_values(|p: (String, String)| (p.0@, p.1@))
}

pub open spec fn strings_view(v: Seq<String>) -> Seq<Seq<char>> {
    v.map_values(|s: String| s@)
}

pub open spec fn has_key(m: PathText, k: Seq<char>) -> bool {
    exists|i: int| 0 <= i < m.len() && m[i].0 == k
}

pub open spec fn keys_unique(m: PathText) -> bool {
    forall|i: int, j: int| 0 <= i < m.len() && 0 <= j < m.len() && i != j ==> m[i].0 != m[j].0
}

pub open spec fn key_index(m: PathText, k: Seq<char>) -> int {
    choose|i: int| 0 <= i < m.len() && m[i].0 == k
}

/// The text recorded under path `k`, if any.
pub open spec fn text_at(m: PathText, k: Seq<char>) -> Option<Seq<char>> {
    if has_key(m, k) {
        Some(m[key_index(m, k)].1)
    } else {
        None
    }
}

pub open spec fn remove_key(m: PathText, k: Seq<char>) -> PathText {
    if has_key(m, k) {
        m.remove(key_index(m, k))
    } else {
        m
    }
}

pub open spec fn append_text(m: PathText, k: Seq<char>, x: Seq<char>) -> PathText {
    if has_key(m, k) {
        let i = key_index(m, k);
        m.update(i, (k, m[i].1 + x))
    } else {
        m.push((k, x))
    }
}

/// State of the walk: the open element paths (innermost last), the text
/// gathered so far, and the paths dropped because their element repeats.
pub ghost struct Walk {
    pub open: Seq<Seq<char>>,
    pub values: PathText,
    pub ignored: Seq<Seq<char>>,
}

pub open spec fn current_path(open: Seq<Seq<char>>) -> Seq<char> {
    if open.len() == 0 {
        Seq::empty()
    } else {
        open.last()
    }
}

/// One event of the walk; `Err` carries the name of an element that closes
/// while none is open.
pub open spec fn walk_step(w: Walk, t: XmlTok) -> Result<Walk, Seq<char>> {
    match t {
        XmlTok::Start(name) => {
            let k = current_path(w.open) + seq!['/'] + name;
            if !w.ignored.contains(k) && has_key(w.values, k) {
                Ok(Walk { open: w.open.push(k), values: remove_key(w.values, k), ignored: w.ignored.push(k) })
            } else {
                Ok(Walk { open: w.open.push(k), ..w })
            }
        },
        XmlTok::End(name) => {
            if w.open.len() == 0 {
                Err(name)
            } else {
                Ok(Walk { open: w.open.drop_last(), ..w })
            }
        },
        XmlTok::Text(x) => {
            let k = current_path(w.open);
            if w.ignored.contains(k) {
                Ok(w)
            } else {
                Ok(Walk { values: append_text(w.values, k, x), ..w })
            }
        },
        XmlTok::Other => Ok(w),
    }
}

pub open spec fn walk(w: Walk, ts: Seq<XmlTok>) -> Result<Walk, Seq<char>>
    decreases ts.len(),
{
    if ts.len() == 0 {
        Ok(w)
    } else {
        match walk_step(w, ts[0]) {
            Ok(w2) => walk(w2, ts.drop_first()),
            Err(name) => Err(name),
        }
    }
}

pub open spec fn empty_walk() -> Walk {
    Walk { open: Seq::empty(), values: Seq::empty(), ignored: Seq::empty() }
}

/// The path/text pairs of a token sequence, or the name of the first element
/// that closes with none open.
pub open spec fn flattened(ts: Seq<XmlTok>) -> Result<PathText, Seq<char>> {
    match walk(empty_walk(), ts) {
        Ok(w) => Ok(w.values),
        Err(name) => Err(name),
    }
}

proof fn lemma_walk_step_unique(w: Walk, t: XmlTok)
    requires
        keys_unique(w.values),
        walk_step(w, t) is Ok,
    ensures
        keys_unique(walk_step(w, t)->Ok_0.values),
{
    match t {
        XmlTok::Start(name) => {
            let k = current_path(w.open) + seq!['/'] + name;
            if has_key(w.values, k) {
                let i = key_index(w.values, k);
                let r = w.values.remove(i);
                assert forall|a: int, b: int| 0 <= a < r.len() && 0 <= b < r.len() && a != b implies r[a].0 != r[b].0 by {
                    let a2 = if a < i { a } else { a + 1 };
                    let b2 = if b < i { b } else { b + 1 };
                    assert(r[a] == w.values[a2]);
                    assert(r[b] == w.values[b2]);
                }
            }
        },
        XmlTok::Text(x) => {
            let k = current_path(w.open);
            if has_key(w.values, k) {
                let i = key_index(w.values, k);
                let r = w.values.update(i, (k, w.values[i].1 + x));
                assert forall|a: int, b: int| 0 <= a < r.len() && 0 <= b < r.len() && a != b implies r[a].0 != r[b].0 by {
                    assert(r[a].0 == w.values[a].0);
                    assert(r[b].0 == w.values[b].0);
                }
            } else {
                let r = w.values.push((k, x));
                assert forall|a: int, b: int| 0 <= a < r.len() && 0 <= b < r.len() && a != b implies r[a].0 != r[b].0 by {
                    if a < w.values.len() && b < w.values.len() {
                        assert(r[a] == w.values[a]);
                        assert(r[b] == w.values[b]);
                    } else if a < w.values.len() {
                        assert(r[a] == w.values[a]);
                    } else {
                        assert(r[b] == w.values[b]);
                    }
                }
            }
        },
        _ => {},
    }
}

proof fn lemma_walk_unique(w: Walk, ts: Seq<XmlTok>)
    requires
        keys_unique(w.values),
        walk(w, ts) is Ok,
    ensures
        keys_unique(walk(w, ts)->Ok_0.values),
    decreases ts.len(),
{
    if ts.len() > 0 {
        lemma_walk_step_unique(w, ts[0]);
        lemma_walk_unique(walk_step(w, ts[0])->Ok_0, ts.drop_first());
    }
}

/// The flattened pairs never hold one path twice.
pub proof fn lemma_flattened_keys_unique(ts: Seq<XmlTok>)
    requires
        flattened(ts) is Ok,
    ensures
        keys_unique(flattened(ts)->Ok_0),
{
    lemma_walk_unique(empty_walk(), ts);
}

fn find_path(values: &Vec<(String, String)>, k: &String) -> (r: Option<usize>)
    requires
        keys_unique(pairs_view(values@)),
    ensures
        match r {
            Some(i) => i < values@.len() && key_index(pairs_view(values@), k@) == i
                && has_key(pairs_view(values@), k@),
            None => !has_key(pairs_view(values@), k@),
        },
{
    let ghost m = pairs_view(values@);
    let mut i: usize = 0;
    while i < values.len()
        invariant
            m == pairs_view(values@),
            keys_unique(m),
            i <= values@.len(),
            forall|j: int| 0 <= j < i ==> m[j].0 != k@,
        decreases values@.len() - i,
    {
        if values[i].0 == *k {
            assert(m[i as int].0 == k@);
            assert(has_key(m, k@));
            let ghost c = key_index(m, k@);
            assert(m[c].0 == k@);
            return Some(i);
        }
        i = i + 1;
    }
    None
}

fn holds_path(v: &Vec<String>, k: &String) -> (r: bool)
    ensures
        r == strings_view(v@).contains(k@),
{
    let ghost s = strings_view(v@);
    let mut i: usize = 0;
    while i < v.len()
        invariant
            s == strings_view(v@),
            i <= v@.len(),
            forall|j: int| 0 <= j < i ==> s[j] != k@,
        decreases v@.len() - i,
    {
        if v[i] == *k {
            assert(s[i as int] == k@);
            return true;
        }
        i = i + 1;
    }
    false
}

/// Walks `tokens` depth first and records, for each element path (`/a/b`), the
/// text found directly under it. A path whose element appears a second time
/// at the same place is dropped with all of its text.
pub fn flatten_description(tokens: &Vec<XmlToken>) -> (r: Result<Vec<(String, String)>, DescriptionError>)
    ensures
        match r {
            Ok(v) => flattened(tokens_view(tokens@)) == Ok::<PathText, Seq<char>>(pairs_view(v@)),
            Err(DescriptionError::UnbalancedEnd { element }) => flattened(tokens_view(tokens@)) == Err::<
                PathText,
                Seq<char>,
            >(element@),
            Err(DescriptionError::Syntax(_)) => false,
        },
{
    let ghost ts = tokens_view(tokens@);
    let mut open: Vec<String> = Vec::new();
    let mut values: Vec<(String, String)> = Vec::new();
    let mut ignored: Vec<String> = Vec::new();
    proof {
        reveal_strlit("/");
        assert(strings_view(open@) =~= Seq::<Seq<char>>::empty());
        assert(pairs_view(values@) =~= Seq::<(Seq<char>, Seq<char>)>::empty());
        assert(strings_view(ignored@) =~= Seq::<Seq<char>>::empty());
        assert(ts.skip(0) =~= ts);
    }
    let mut i: usize = 0;
    while i < tokens.len()
        invariant
            ts == tokens_view(tokens@),
            i <= tokens@.len(),
            "/"@ == seq!['/'],
            keys_unique(pairs_view(values@)),
            walk(empty_walk(), ts) == walk(
                Walk { open: strings_view(open@), values: pairs_view(values@), ignored: strings_view(ignored@) },
                ts.skip(i as int),
            ),
        decreases tokens@.len() - i,
    {
        let ghost w = Walk { open: strings_view(open@), values: pairs_view(values@), ignored: strings_view(ignored@) };
        proof {
            assert(ts.skip(i as int).drop_first() =~= ts.skip(i + 1));
            assert(ts.skip(i as int)[0] == ts[i as int]);
            if walk_step(w, ts[i as int]) is Ok {
                lemma_walk_step_unique(w, ts[i as int]);
            }
        }
        let cur = if open.len() == 0 {
            String::new()
        } else {
            open[open.len() - 1].clone()
        };
        assert(cur@ == current_path(w.open));
        match &tokens[i] {
            XmlToken::Start(name) => {
                let k = cur.concat("/").concat(name.as_str());
                assert(k@ == current_path(w.open) + seq!['/'] + name@);
                if !holds_path(&ignored, &k) {
                    match find_path(&values, &k) {
                        Some(j) => {
                            values.remove(j);
                            ignored.push(k.clone());
                            proof {
                                assert(pairs_view(values@) =~= w.values.remove(j as int));
                                assert(strings_view(ignored@) =~= w.ignored.push(k@));
                            }
                        },
                        None => {},
                    }
                }
                open.push(k);
                proof {
                    assert(strings_view(open@) =~= w.open.push(k@));
                }
            },
            XmlToken::End(name) => {
                if open.len() == 0 {
                    return Err(DescriptionError::UnbalancedEnd { element: name.clone() });
                }
                open.pop();
                proof {
                    assert(strings_view(open@) =~= w.open.drop_last());
                }
            },
            XmlToken::Characters(x) | XmlToken::CData(x) => {
                if !holds_path(&ignored, &cur) {
                    match find_path(&values, &cur) {
                        Some(j) => {
                            let mut t = values[j].1.clone();
                            t.append(x.as_str());
                            values.set(j, (cur, t));
                            proof {
                                assert(pairs_view(values@) =~= w.values.update(j as int, (w.values[j as int].0, w.values[j as int].1 + x@)));
                            }
                        },
                        None => {
                            values.push((cur, x.clone()));
                            proof {
                                assert(pairs_view(values@) =~= w.values.push((cur@, x@)));
                            }
                        },
                    }
                }
            },
            XmlToken::Other => {},
        }
        i = i + 1;
    }
    proof {
        assert(ts.skip(i as int) =~= Seq::<XmlTok>::empty());
    }
    Ok(values)
}

/// Parses an XML document into path/text pairs (see `flatten_description`).
pub fn parse_simple_xml(doc: &str) -> (r: Result<Vec<(String, String)>, DescriptionError>)
    ensures
        match xml_events_of(doc@) {
            None => r is Err && r->Err_0 is Syntax,
            Some(ts) => match r {
                Ok(v) => flattened(ts) == Ok::<PathText, Seq<char>>(pairs_view(v@)),
                Err(DescriptionError::UnbalancedEnd { element }) => flattened(ts) == Err::<PathText, Seq<char>>(
                    element@,
                ),
                Err(DescriptionError::Syntax(_)) => false,
            },
        },
{
    match xml_events(doc) {
        Ok(tokens) => flatten_description(&tokens),
        Err(message) => Err(DescriptionError::Syntax(message)),
    }
}

/// The text recorded under `path`, if any.
pub fn lookup<'a>(pairs: &'a Vec<(String, String)>, path: &str) -> (r: Option<&'a String>)
    requires
        keys_unique(pairs_view(pairs@)),
    ensures
        match r {
            Some(t) => text_at(pairs_view(pairs@), path@) == Some(t@),
            None => text_at(pairs_view(pairs@), path@).is_none(),
        },
{
    let k = String::from_str(path);
    match find_path(pairs, &k) {
        Some(i) => Some(&pairs[i].1),
        None => None,
    }
}

} // verus!
