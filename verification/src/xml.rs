//! Reading the game list out of the launcher's `preferences.xml`.
use vstd::prelude::*;

verus! {

/// One node of an XML document, in document order: how many ancestors it has
/// (itself included), whether it is an element, its local tag name (empty for
/// non-elements) and its text (for an element, that of its first child when
/// that child is text).
pub struct XmlEntry {
    pub depth: usize,
    pub is_element: bool,
    pub name: String,
    pub text: Option<String>,
}

/// The plain content of an [`XmlEntry`].
pub struct XmlEntryView {
    pub depth: int,
    pub is_element: bool,
    pub name: Seq<char>,
    pub text: Option<Seq<char>>,
}

impl View for XmlEntry {
    type V = XmlEntryView;

    open spec fn view(&self) -> XmlEntryView {
        XmlEntryView {
            depth: self.depth as int,
            is_element: self.is_element,
            name: self.name@,
            text: match &self.text {
                Some(t) => Some(t@),
                None => None,
            },
        }
    }
}

/// The views of a list of nodes.
pub open spec fn outline_view(v: Seq<XmlEntry>) -> Seq<XmlEntryView> {
    v.map_values(|e: XmlEntry| e@)
}

/// The views of a list of strings.
pub open spec fn strings_view(v: Seq<String>) -> Seq<Seq<char>> {
    v.map_values(|s: String| s@)
}

/// The nodes of the XML document written by `text`, in document order, or
/// `None` when `text` is not well-formed XML.
pub uninterp spec fn xml_outline(text: Seq<char>) -> Option<Seq<XmlEntryView>>;

/// Parses XML text with `roxmltree::Document::parse` and lists its nodes in
/// document order (`Document::descendants`), each with `Node::ancestors` counted,
/// `Node::is_element`, the local part of `Node::tag_name` and `Node::text`.
/// Claimed: the result is `xml_outline(text@)`, a function of the text alone;
/// nothing is stated about which texts parse.
#[verifier::external_body]
fn parse_xml_outline(text: &str) -> (r: Option<Vec<XmlEntry>>)
    ensures
        match r {
            Some(v) => xml_outline(text@) == Some(outline_view(v@)),
            None => xml_outline(text@) is None,
        },
{
    let doc = match roxmltree::Document::parse(text) {
        Ok(doc) => doc,
        Err(_) => return None,
    };
    Some(doc.descendants().map(|n| XmlEntry {
        depth: n.ancestors().count(),
        is_element: n.is_element(),
        name: n.tag_name().name().to_string(),
        text: n.text().map(|t| t.to_string()),
    }).collect())
}

/// The game id of Tanks Blitz on the live (production) server.
pub const TANKS_BLITZ_GAME_ID: &'static str = "WOTB.RU.PRODUCTION";

/// Whether node `e` is an element named `name`.
pub open spec fn tagged(e: XmlEntryView, name: Seq<char>) -> bool {
    e.is_element && e.name == name
}

/// The first node at or after `from`, in document order, that is an element named `name`.
pub open spec fn first_tagged_from(o: Seq<XmlEntryView>, name: Seq<char>, from: int) -> Option<int>
    decreases o.len() - from,
{
    if from < 0 || from >= o.len() {
        None
    } else if tagged(o[from], name) {
        Some(from)
    } else {
        first_tagged_from(o, name, from + 1)
    }
}

/// The first child of node `p`, at or after position `from`, that is an element named `name`.
pub open spec fn first_child_tagged(o: Seq<XmlEntryView>, p: int, name: Seq<char>, from: int) -> Option<int>
    decreases o.len() - from,
{
    if from <= p || from >= o.len() || o[from].depth <= o[p].depth {
        None
    } else if o[from].depth == o[p].depth + 1 && tagged(o[from], name) {
        Some(from)
    } else {
        first_child_tagged(o, p, name, from + 1)
    }
}

/// The text of the first child element of `p` named `name`, if it has one.
pub open spec fn child_text(o: Seq<XmlEntryView>, p: int, name: Seq<char>) -> Option<Seq<char>> {
    match first_child_tagged(o, p, name, p + 1) {
        Some(k) => o[k].text,
        None => None,
    }
}

/// Whether the `<game>` element at `k` is the wanted game: its first `<game_id>`
/// child has text equal to `game_id` (a missing id counts as empty text).
pub open spec fn game_matches(o: Seq<XmlEntryView>, k: int, game_id: Seq<char>) -> bool {
    match child_text(o, k, "game_id"@) {
        Some(t) => t == game_id,
        None => game_id.len() == 0,
    }
}

/// The working directories of the wanted games among the children of `g`
/// from position `from` on, in document order.
pub open spec fn game_dirs_from(o: Seq<XmlEntryView>, g: int, from: int, game_id: Seq<char>) -> Seq<Seq<char>>
    decreases o.len() - from,
{
    if from <= g || from >= o.len() || o[from].depth <= o[g].depth {
        Seq::<Seq<char>>::empty()
    } else {
        let rest = game_dirs_from(o, g, from + 1, game_id);
        if o[from].depth == o[g].depth + 1 && tagged(o[from], "game"@) && game_matches(o, from, game_id)
            && child_text(o, from, "working_dir"@) is Some {
            seq![child_text(o, from, "working_dir"@).unwrap()] + rest
        } else {
            rest
        }
    }
}

proof fn lemma_first_child_is(o: Seq<XmlEntryView>, k: int, name: Seq<char>, w: int, j: int)
    requires
        0 <= k < j <= w < o.len(),
        forall|m: int| k < m <= w ==> (#[trigger] o[m]).depth > o[k].depth,
        o[w].depth == o[k].depth + 1 && tagged(o[w], name),
        forall|m: int| k < m < w ==> !((#[trigger] o[m]).depth == o[k].depth + 1 && tagged(o[m], name)),
    ensures
        first_child_tagged(o, k, name, j) == Some(w),
    decreases w - j,
{
    if j < w {
        assert(o[j].depth > o[k].depth);
        assert(!(o[j].depth == o[k].depth + 1 && tagged(o[j], name)));
        lemma_first_child_is(o, k, name, w, j + 1);
    }
}

/// The child text of an element is that of its first child with the tag, in
/// document order, wherever that child stands among its siblings.
pub proof fn law_child_text_is_first_child(o: Seq<XmlEntryView>, k: int, name: Seq<char>, w: int)
    requires
        0 <= k < w < o.len(),
        forall|m: int| k < m <= w ==> (#[trigger] o[m]).depth > o[k].depth,
        o[w].depth == o[k].depth + 1 && tagged(o[w], name),
        forall|m: int| k < m < w ==> !((#[trigger] o[m]).depth == o[k].depth + 1 && tagged(o[m], name)),
    ensures
        child_text(o, k, name) == o[w].text,
{
    lemma_first_child_is(o, k, name, w, k + 1);
}

/// A wanted `<game>` child `k` of the `<games>` element `g` lists the text of
/// its first `<working_dir>` child `w`, first among the directories from `k`
/// on, whatever the order of its `<game_id>` and `<working_dir>` children.
pub proof fn law_game_lists_its_first_working_dir(o: Seq<XmlEntryView>, g: int, k: int, w: int,
    game_id: Seq<char>, dir: Seq<char>)
    requires
        0 <= g < k < w < o.len(),
        o[k].depth == o[g].depth + 1,
        tagged(o[k], "game"@),
        game_matches(o, k, game_id),
        forall|m: int| k < m <= w ==> (#[trigger] o[m]).depth > o[k].depth,
        o[w].depth == o[k].depth + 1 && tagged(o[w], "working_dir"@),
        forall|m: int| k < m < w ==> !((#[trigger] o[m]).depth == o[k].depth + 1 && tagged(o[m], "working_dir"@)),
        o[w].text == Some(dir),
    ensures
        game_dirs_from(o, g, k, game_id).len() > 0,
        game_dirs_from(o, g, k, game_id)[0] == dir,
        game_dirs_from(o, g, k, game_id) == seq![dir] + game_dirs_from(o, g, k + 1, game_id),
{
    law_child_text_is_first_child(o, k, "working_dir"@, w);
}

/// The working directories of every `<game>` child of the first `<games>`
/// element whose id is `game_id`, in document order.
pub open spec fn game_dirs(o: Seq<XmlEntryView>, game_id: Seq<char>) -> Seq<Seq<char>> {
    match first_tagged_from(o, "games"@, 0) {
        Some(g) => game_dirs_from(o, g, g + 1, game_id),
        None => Seq::<Seq<char>>::empty(),
    }
}

/// The Tanks Blitz working directories that a `preferences.xml` text lists
/// (none when the text is not XML).
pub open spec fn preference_dirs(xml: Seq<char>) -> Seq<Seq<char>> {
    match xml_outline(xml) {
        Some(o) => game_dirs(o, TANKS_BLITZ_GAME_ID@),
        None => Seq::<Seq<char>>::empty(),
    }
}

fn is_tagged(e: &XmlEntry, name: &String) -> (r: bool)
    ensures
        r == tagged(e@, name@),
{
    e.is_element && e.name == *name
}

fn find_tagged(o: &Vec<XmlEntry>, name: &String) -> (r: Option<usize>)
    ensures
        r is Some <==> first_tagged_from(outline_view(o@), name@, 0) is Some,
        r matches Some(i) ==> first_tagged_from(outline_view(o@), name@, 0) == Some(i as int)
            && i < o@.len(),
{
    let ghost ov = outline_view(o@);
    let mut i: usize = 0;
    while i < o.len()
        invariant
            i <= o@.len(),
            ov == outline_view(o@),
            first_tagged_from(ov, name@, 0) == first_tagged_from(ov, name@, i as int),
        decreases o@.len() - i,
    {
        if is_tagged(&o[i], name) {
            return Some(i);
        }
        i += 1;
    }
    None
}

fn child_text_of<'a>(o: &'a Vec<XmlEntry>, p: usize, name: &String) -> (r: Option<&'a String>)
    requires
        p < o@.len(),
    ensures
        r.is_some() == child_text(outline_view(o@), p as int, name@).is_some(),
        r matches Some(t) ==> child_text(outline_view(o@), p as int, name@) == Some(t@),
{
    let ghost ov = outline_view(o@);
    let n = o.len();
    let mut k: usize = p + 1;
    while k < n
        invariant
            n == o@.len(),
            p < k <= o@.len(),
            ov == outline_view(o@),
            first_child_tagged(ov, p as int, name@, p + 1) == first_child_tagged(ov, p as int, name@, k as int),
        decreases o@.len() - k,
    {
        if o[k].depth <= o[p].depth {
            return None;
        }
        if o[k].depth - 1 == o[p].depth && is_tagged(&o[k], name) {
            return match &o[k].text {
                Some(t) => Some(t),
                None => None,
            };
        }
        k += 1;
    }
    None
}

/// The working directories that the outline `o` of a `preferences.xml` lists
/// for the game `game_id`: the `<working_dir>` text of each `<game>` child of
/// the first `<games>` element whose `<game_id>` text is `game_id`.
pub fn game_working_dirs(o: &Vec<XmlEntry>, game_id: &String) -> (r: Vec<String>)
    ensures
        strings_view(r@) == game_dirs(outline_view(o@), game_id@),
{
    let ghost ov = outline_view(o@);
    let games = "games".to_owned();
    let game = "game".to_owned();
    let id_tag = "game_id".to_owned();
    let dir_tag = "working_dir".to_owned();
    let g = match find_tagged(o, &games) {
        Some(g) => g,
        None => return Vec::new(),
    };
    let ghost gi = g as int;
    let n = o.len();
    assert(g < n);
    let mut found: Vec<String> = Vec::new();
    let mut j: usize = g + 1;
    while j < o.len() && o[j].depth > o[g].depth
        invariant
            g < j <= o@.len(),
            gi == g as int,
            ov == outline_view(o@),
            games@ == "games"@, game@ == "game"@, id_tag@ == "game_id"@, dir_tag@ == "working_dir"@,
            game_dirs_from(ov, gi, gi + 1, game_id@)
                == strings_view(found@) + game_dirs_from(ov, gi, j as int, game_id@),
        decreases o@.len() - j,
    {
        let ghost before = found@;
        assert(ov[j as int] == o@[j as int]@ && ov[gi] == o@[gi]@);
        if o[j].depth - 1 == o[g].depth && is_tagged(&o[j], &game) {
            let id = child_text_of(o, j, &id_tag);
            let matches = match id {
                Some(t) => *t == *game_id,
                None => game_id.as_str().is_empty(),
            };
            if matches {
                match child_text_of(o, j, &dir_tag) {
                    Some(d) => {
                        found.push(d.clone());
                        assert(strings_view(found@) =~= strings_view(before).push(d@));
                    },
                    None => {},
                }
            }
        }
        proof {
            let rest = game_dirs_from(ov, gi, j + 1, game_id@);
            assert(strings_view(found@) + rest =~= strings_view(before) + game_dirs_from(ov, gi, j as int, game_id@));
        }
        j += 1;
    }
    found
}

/// The Tanks Blitz installations that the launcher's `preferences.xml` text
/// lists, in document order; none when the text is not XML.
pub fn preferences_working_dirs(xml_text: &str) -> (r: Vec<String>)
    ensures
        strings_view(r@) == preference_dirs(xml_text@),
{
    match parse_xml_outline(xml_text) {
        Some(o) => {
            let id = TANKS_BLITZ_GAME_ID.to_owned();
            game_working_dirs(&o, &id)
        },
        None => Vec::new(),
    }
}

} // verus!
