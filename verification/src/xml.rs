use vstd::prelude::*;
use crate::error::{Label, SessionError};

verus! {

/// One node of a parsed XML document, reduced to what the blob locator reads:
/// whether the node is a text node, the text the document associates with it
/// (a text node's own content, an element's first text child), and the
/// document-order indices of its parent, next sibling and first child.
pub struct XmlNode {
    pub is_text: bool,
    pub text: Option<Vec<u8>>,
    pub parent: Option<usize>,
    pub next_sibling: Option<usize>,
    pub first_child: Option<usize>,
}

/// What parsing yields on `text`: the document's node list, in document
/// order, exactly when `text` is well-formed XML, and no value otherwise.
pub uninterp spec fn xml_nodes_of(text: Seq<char>) -> Option<Seq<XmlNode>>;

/// Relies on roxmltree::Document::parse and the node accessors `node_type`,
/// `text`, `parent`, `next_sibling`, `first_child`: whether parsing succeeds
/// and what tree it yields are functions of the text alone, and
/// `descendants` of the root walks the document's node list in storage
/// order, so a node's position in the result equals its `NodeId`.
#[verifier::external_body]
pub fn parse_document(text: &str) -> (r: Option<Vec<XmlNode>>)
    ensures
        r is Some <==> xml_nodes_of(text@) is Some,
        r is Some ==> r.unwrap()@ == xml_nodes_of(text@).unwrap(),
{
    let doc = match roxmltree::Document::parse(text) {
        Ok(d) => d,
        Err(_) => return None,
    };
    Some(doc.descendants().map(|n| XmlNode {
        is_text: n.node_type() == roxmltree::NodeType::Text,
        text: n.text().map(|t| t.as_bytes().to_vec()),
        parent: n.parent().map(|p| p.id().get_usize()),
        next_sibling: n.next_sibling().map(|p| p.id().get_usize()),
        first_child: n.first_child().map(|p| p.id().get_usize()),
    }).collect())
}

/// ASCII whitespace: space and the control characters tab through carriage
/// return.
pub open spec fn is_ascii_space(b: u8) -> bool {
    b == 32 || (9 <= b && b <= 13)
}

/// The two-byte UTF-8 encodings of whitespace characters: U+0085 (next
/// line) and U+00A0 (no-break space).
pub open spec fn is_two_byte_space(b0: u8, b1: u8) -> bool {
    b0 == 0xc2 && (b1 == 0x85 || b1 == 0xa0)
}

/// The three-byte UTF-8 encodings of whitespace characters: U+1680,
/// U+2000 through U+200A, U+2028, U+2029, U+202F, U+205F and U+3000.
pub open spec fn is_three_byte_space(b0: u8, b1: u8, b2: u8) -> bool {
    ||| (b0 == 0xe1 && b1 == 0x9a && b2 == 0x80)
    ||| (b0 == 0xe2 && b1 == 0x80 && (0x80 <= b2 && b2 <= 0x8a))
    ||| (b0 == 0xe2 && b1 == 0x80 && (b2 == 0xa8 || b2 == 0xa9 || b2 == 0xaf))
    ||| (b0 == 0xe2 && b1 == 0x81 && b2 == 0x9f)
    ||| (b0 == 0xe3 && b1 == 0x80 && b2 == 0x80)
}

/// The byte length of the whitespace character that `s` begins with, or 0
/// when `s` does not begin with one. Whitespace is the set of characters
/// with Unicode's White_Space property, in their UTF-8 encoding; none takes
/// more than three bytes.
pub open spec fn space_front_len(s: Seq<u8>) -> int {
    if s.len() >= 1 && is_ascii_space(s[0]) {
        1
    } else if s.len() >= 2 && is_two_byte_space(s[0], s[1]) {
        2
    } else if s.len() >= 3 && is_three_byte_space(s[0], s[1], s[2]) {
        3
    } else {
        0
    }
}

/// The byte length of the whitespace character that `s` ends with, or 0
/// when `s` does not end with one. A lead byte is never a continuation
/// byte, so on well-formed UTF-8 the match falls on a character boundary.
pub open spec fn space_back_len(s: Seq<u8>) -> int {
    let n = s.len() as int;
    if n >= 1 && is_ascii_space(s[n - 1]) {
        1
    } else if n >= 2 && is_two_byte_space(s[n - 2], s[n - 1]) {
        2
    } else if n >= 3 && is_three_byte_space(s[n - 3], s[n - 2], s[n - 1]) {
        3
    } else {
        0
    }
}

/// Bytes that survive unwrapping a payload: everything but newline and tab.
pub open spec fn keep_byte(b: u8) -> bool {
    b != 10 && b != 9
}

/// `s` without its leading whitespace characters.
pub open spec fn trim_front(s: Seq<u8>) -> Seq<u8>
    decreases s.len(),
{
    let k = space_front_len(s);
    if k > 0 {
        trim_front(s.skip(k))
    } else {
        s
    }
}

/// `s` without its trailing whitespace characters.
pub open spec fn trim_back(s: Seq<u8>) -> Seq<u8>
    decreases s.len(),
{
    let k = space_back_len(s);
    if k > 0 {
        trim_back(s.take(s.len() - k))
    } else {
        s
    }
}

/// A payload as the decoder receives it: whitespace trimmed from both ends,
/// then every embedded newline and tab removed.
pub open spec fn clean(s: Seq<u8>) -> Seq<u8> {
    trim_back(trim_front(s)).filter(|b: u8| keep_byte(b))
}

fn ascii_space(b: u8) -> (r: bool)
    ensures
        r == is_ascii_space(b),
{
    b == 32 || (9 <= b && b <= 13)
}

fn two_byte_space(b0: u8, b1: u8) -> (r: bool)
    ensures
        r == is_two_byte_space(b0, b1),
{
    b0 == 0xc2 && (b1 == 0x85 || b1 == 0xa0)
}

fn three_byte_space(b0: u8, b1: u8, b2: u8) -> (r: bool)
    ensures
        r == is_three_byte_space(b0, b1, b2),
{
    (b0 == 0xe1 && b1 == 0x9a && b2 == 0x80) || (b0 == 0xe2 && b1 == 0x80 && ((0x80 <= b2 && b2
        <= 0x8a) || b2 == 0xa8 || b2 == 0xa9 || b2 == 0xaf)) || (b0 == 0xe2 && b1 == 0x81 && b2
        == 0x9f) || (b0 == 0xe3 && b1 == 0x80 && b2 == 0x80)
}

/// The byte length of the whitespace character at position `lo` of `t`.
fn space_front_at(t: &Vec<u8>, lo: usize) -> (k: usize)
    requires
        lo <= t@.len(),
    ensures
        k == space_front_len(t@.skip(lo as int)),
{
    let len: usize = t.len();
    if lo < len && ascii_space(t[lo]) {
        1
    } else if len - lo >= 2 && two_byte_space(t[lo], t[lo + 1]) {
        2
    } else if len - lo >= 3 && three_byte_space(t[lo], t[lo + 1], t[lo + 2]) {
        3
    } else {
        0
    }
}

/// The byte length of the whitespace character ending at position `hi` of
/// `t`, looking no further back than `lo`.
fn space_back_at(t: &Vec<u8>, lo: usize, hi: usize) -> (k: usize)
    requires
        lo <= hi <= t@.len(),
    ensures
        k == space_back_len(t@.subrange(lo as int, hi as int)),
{
    let n: usize = hi - lo;
    if n >= 1 && ascii_space(t[hi - 1]) {
        1
    } else if n >= 2 && two_byte_space(t[hi - 2], t[hi - 1]) {
        2
    } else if n >= 3 && three_byte_space(t[hi - 3], t[hi - 2], t[hi - 1]) {
        3
    } else {
        0
    }
}

/// Trims whitespace from both ends of `t` and strips embedded newlines and
/// tabs, as the session format wraps its base64 payloads for readability.
pub fn clean_payload(t: &Vec<u8>) -> (r: Vec<u8>)
    ensures
        r@ == clean(t@),
{
    let len: usize = t.len();
    let mut lo: usize = 0;
    proof {
        assert(t@.skip(0) =~= t@);
    }
    let mut k: usize = space_front_at(t, lo);
    while k > 0
        invariant
            len == t@.len(),
            lo <= len,
            trim_front(t@) == trim_front(t@.skip(lo as int)),
            k == space_front_len(t@.skip(lo as int)),
        decreases len - lo,
    {
        proof {
            assert(t@.skip(lo as int).skip(k as int) =~= t@.skip(lo as int + k as int));
        }
        lo = lo + k;
        k = space_front_at(t, lo);
    }
    proof {
        assert(trim_front(t@.skip(lo as int)) == t@.skip(lo as int));
        assert(t@.skip(lo as int) =~= t@.subrange(lo as int, len as int));
    }
    let mut hi: usize = len;
    let mut kb: usize = space_back_at(t, lo, hi);
    while kb > 0
        invariant
            len == t@.len(),
            lo <= hi <= len,
            trim_back(t@.skip(lo as int)) == trim_back(t@.subrange(lo as int, hi as int)),
            kb == space_back_len(t@.subrange(lo as int, hi as int)),
        decreases hi,
    {
        proof {
            assert(t@.subrange(lo as int, hi as int).take(hi - lo - kb as int) =~= t@.subrange(
                lo as int,
                hi - kb as int,
            ));
        }
        hi = hi - kb;
        kb = space_back_at(t, lo, hi);
    }
    proof {
        assert(trim_back(t@.subrange(lo as int, hi as int)) == t@.subrange(lo as int, hi as int));
    }
    let ghost core: Seq<u8> = t@.subrange(lo as int, hi as int);
    let mut r: Vec<u8> = Vec::new();
    let mut i: usize = lo;
    proof {
        reveal(Seq::filter);
        assert(t@.subrange(lo as int, lo as int) =~= Seq::<u8>::empty());
    }
    while i < hi
        invariant
            len == t@.len(),
            lo <= i <= hi <= len,
            core == t@.subrange(lo as int, hi as int),
            r@ == t@.subrange(lo as int, i as int).filter(|b: u8| keep_byte(b)),
        decreases hi - i,
    {
        let b: u8 = t[i];
        if b != 10 && b != 9 {
            r.push(b);
        }
        proof {
            assert(t@.subrange(lo as int, i as int + 1) =~= t@.subrange(
                lo as int,
                i as int,
            ).push(t@[i as int]));
            t@.subrange(lo as int, i as int).lemma_filter_push(
                t@[i as int],
                |b: u8| keep_byte(b),
            );
        }
        i = i + 1;
    }
    proof {
        assert(clean(t@) == core.filter(|b: u8| keep_byte(b)));
    }
    r
}

/// The text marking each array in the session file: `curvespoints`,
/// `curvesnumpoints`, `curveswidth` and `curvescolors`, as UTF-8 bytes.
pub open spec fn label_text(l: Label) -> Seq<u8> {
    match l {
        Label::Points => seq![99u8, 117, 114, 118, 101, 115, 112, 111, 105, 110, 116, 115],
        Label::PointCounts => seq![
            99u8,
            117,
            114,
            118,
            101,
            115,
            110,
            117,
            109,
            112,
            111,
            105,
            110,
            116,
            115,
        ],
        Label::Widths => seq![99u8, 117, 114, 118, 101, 115, 119, 105, 100, 116, 104],
        Label::Colors => seq![99u8, 117, 114, 118, 101, 115, 99, 111, 108, 111, 114, 115],
    }
}

fn label_bytes(l: Label) -> (r: Vec<u8>)
    ensures
        r@ == label_text(l),
{
    let r: Vec<u8> = match l {
        Label::Points => vec![99u8, 117, 114, 118, 101, 115, 112, 111, 105, 110, 116, 115],
        Label::PointCounts => vec![
            99u8,
            117,
            114,
            118,
            101,
            115,
            110,
            117,
            109,
            112,
            111,
            105,
            110,
            116,
            115,
        ],
        Label::Widths => vec![99u8, 117, 114, 118, 101, 115, 119, 105, 100, 116, 104],
        Label::Colors => vec![99u8, 117, 114, 118, 101, 115, 99, 111, 108, 111, 114, 115],
    };
    proof {
        assert(r@ =~= label_text(l));
    }
    r
}

fn bytes_eq(a: &Vec<u8>, b: &Vec<u8>) -> (r: bool)
    ensures
        r == (a@ == b@),
{
    if a.len() != b.len() {
        proof {
            assert(a@ != b@);
        }
        return false;
    }
    let n: usize = a.len();
    let mut i: usize = 0;
    while i < n
        invariant
            n == a@.len() && n == b@.len(),
            i <= n,
            forall|k: int| 0 <= k < i ==> a@[k] == b@[k],
        decreases n - i,
    {
        if a[i] != b[i] {
            proof {
                assert(a@[i as int] != b@[i as int]);
            }
            return false;
        }
        i = i + 1;
    }
    proof {
        assert(a@ =~= b@);
    }
    true
}

/// Node `i` is a text node whose content is exactly the label of `l`.
pub open spec fn is_label_match(tree: Seq<XmlNode>, i: int, l: Label) -> bool {
    &&& tree[i].is_text
    &&& tree[i].text is Some
    &&& tree[i].text.unwrap()@ == label_text(l)
}

/// Node `i` is a text node matching one of the four labels.
pub open spec fn matches_any(tree: Seq<XmlNode>, i: int) -> bool {
    ||| is_label_match(tree, i, Label::Points)
    ||| is_label_match(tree, i, Label::PointCounts)
    ||| is_label_match(tree, i, Label::Widths)
    ||| is_label_match(tree, i, Label::Colors)
}

/// The label that node `i` matches; meaningful only under `matches_any`.
pub open spec fn matched_label(tree: Seq<XmlNode>, i: int) -> Label {
    if is_label_match(tree, i, Label::Points) {
        Label::Points
    } else if is_label_match(tree, i, Label::PointCounts) {
        Label::PointCounts
    } else if is_label_match(tree, i, Label::Widths) {
        Label::Widths
    } else {
        Label::Colors
    }
}

/// The raw text reached from the label node `i` by the session layout's fixed
/// structural path: parent, next sibling, next sibling again, first child,
/// that node's text. No value when any step is missing.
pub open spec fn resolve_at(tree: Seq<XmlNode>, i: int) -> Option<Seq<u8>> {
    if tree[i].parent is Some && tree[i].parent.unwrap() < tree.len() {
        let p = tree[i].parent.unwrap() as int;
        if tree[p].next_sibling is Some && tree[p].next_sibling.unwrap() < tree.len() {
            let s1 = tree[p].next_sibling.unwrap() as int;
            if tree[s1].next_sibling is Some && tree[s1].next_sibling.unwrap() < tree.len() {
                let s2 = tree[s1].next_sibling.unwrap() as int;
                if tree[s2].first_child is Some && tree[s2].first_child.unwrap() < tree.len() {
                    let c = tree[s2].first_child.unwrap() as int;
                    if tree[c].text is Some {
                        Some(tree[c].text.unwrap()@)
                    } else {
                        None
                    }
                } else {
                    None
                }
            } else {
                None
            }
        } else {
            None
        }
    } else {
        None
    }
}

/// Node `i` matches a label but its structural path does not resolve.
pub open spec fn node_fails(tree: Seq<XmlNode>, i: int) -> bool {
    matches_any(tree, i) && resolve_at(tree, i) is None
}

/// The first node among `0 .. n` that matches a label and fails to resolve.
pub open spec fn first_bad(tree: Seq<XmlNode>, n: int) -> Option<int>
    decreases n,
{
    if n <= 0 {
        None
    } else if first_bad(tree, n - 1) is Some {
        first_bad(tree, n - 1)
    } else if node_fails(tree, n - 1) {
        Some(n - 1)
    } else {
        None
    }
}

/// The last node among `0 .. n` matching label `l`: a repeated label
/// overwrites an earlier occurrence.
pub open spec fn last_match(tree: Seq<XmlNode>, l: Label, n: int) -> Option<int>
    decreases n,
{
    if n <= 0 {
        None
    } else if is_label_match(tree, n - 1, l) {
        Some(n - 1)
    } else {
        last_match(tree, l, n - 1)
    }
}

/// The cleaned payload text for label `l`: the resolved value of its last
/// occurrence. Meaningful when that occurrence exists and resolves.
pub open spec fn payload_for(tree: Seq<XmlNode>, l: Label) -> Seq<u8> {
    clean(resolve_at(tree, last_match(tree, l, tree.len() as int).unwrap()).unwrap())
}

/// The locator succeeds on this tree: every label occurrence resolves, and
/// each of the four labels occurs at least once.
pub open spec fn locate_ok(tree: Seq<XmlNode>) -> bool {
    let n = tree.len() as int;
    &&& first_bad(tree, n) is None
    &&& last_match(tree, Label::PointCounts, n) is Some
    &&& last_match(tree, Label::Points, n) is Some
    &&& last_match(tree, Label::Widths, n) is Some
    &&& last_match(tree, Label::Colors, n) is Some
}

/// The error the locator reports on a tree it fails on: the first label
/// occurrence whose structural path is broken, else the first label never
/// occurring, in the order point counts, points, widths, colors.
/// Meaningful only when `locate_ok` does not hold.
pub open spec fn locate_error(tree: Seq<XmlNode>) -> SessionError {
    let n = tree.len() as int;
    if first_bad(tree, n) is Some {
        SessionError::BrokenPath(matched_label(tree, first_bad(tree, n).unwrap()))
    } else if last_match(tree, Label::PointCounts, n) is None {
        SessionError::MissingLabel(Label::PointCounts)
    } else if last_match(tree, Label::Points, n) is None {
        SessionError::MissingLabel(Label::Points)
    } else if last_match(tree, Label::Widths, n) is None {
        SessionError::MissingLabel(Label::Widths)
    } else {
        SessionError::MissingLabel(Label::Colors)
    }
}

/// The four raw base64 payloads of one session file, as found in the
/// document and cleaned of wrapping whitespace.
pub struct SessionPayload {
    pub points: Vec<u8>,
    pub point_counts: Vec<u8>,
    pub widths: Vec<u8>,
    pub colors: Vec<u8>,
}

/// Follows the structural path from node `i` and cleans the text it reaches.
fn resolve_clean(tree: &Vec<XmlNode>, i: usize) -> (r: Option<Vec<u8>>)
    requires
        i < tree@.len(),
    ensures
        r is Some <==> resolve_at(tree@, i as int) is Some,
        r is Some ==> r.unwrap()@ == clean(resolve_at(tree@, i as int).unwrap()),
{
    let n: usize = tree.len();
    let p: usize = match tree[i].parent {
        Some(p) => p,
        None => { return None; },
    };
    if p >= n {
        return None;
    }
    let s1: usize = match tree[p].next_sibling {
        Some(s) => s,
        None => { return None; },
    };
    if s1 >= n {
        return None;
    }
    let s2: usize = match tree[s1].next_sibling {
        Some(s) => s,
        None => { return None; },
    };
    if s2 >= n {
        return None;
    }
    let c: usize = match tree[s2].first_child {
        Some(c) => c,
        None => { return None; },
    };
    if c >= n {
        return None;
    }
    match &tree[c].text {
        Some(t) => Some(clean_payload(t)),
        None => None,
    }
}

/// Scans the parsed document in order for the four label texts and returns
/// their cleaned base64 payloads. A repeated label overwrites the earlier
/// value; a label whose structural path is broken stops the scan; a label
/// that never occurs is reported after the scan, point counts first, then
/// points, widths and colors.
pub fn locate_payloads(tree: &Vec<XmlNode>) -> (r: Result<SessionPayload, SessionError>)
    ensures
        !locate_ok(tree@) ==> r == Err::<SessionPayload, SessionError>(locate_error(tree@)),
        locate_ok(tree@) ==> {
            &&& r is Ok
            &&& r.unwrap().points@ == payload_for(tree@, Label::Points)
            &&& r.unwrap().point_counts@ == payload_for(tree@, Label::PointCounts)
            &&& r.unwrap().widths@ == payload_for(tree@, Label::Widths)
            &&& r.unwrap().colors@ == payload_for(tree@, Label::Colors)
        },
{
    let n: usize = tree.len();
    let lab_points = label_bytes(Label::Points);
    let lab_counts = label_bytes(Label::PointCounts);
    let lab_widths = label_bytes(Label::Widths);
    let lab_colors = label_bytes(Label::Colors);
    let mut points_val: Option<Vec<u8>> = None;
    let mut counts_val: Option<Vec<u8>> = None;
    let mut widths_val: Option<Vec<u8>> = None;
    let mut colors_val: Option<Vec<u8>> = None;
    let mut i: usize = 0;
    while i < n
        invariant
            n == tree@.len(),
            i <= n,
            lab_points@ == label_text(Label::Points),
            lab_counts@ == label_text(Label::PointCounts),
            lab_widths@ == label_text(Label::Widths),
            lab_colors@ == label_text(Label::Colors),
            first_bad(tree@, i as int) is None,
            found_matches(tree@, Label::Points, i as int, &points_val),
            found_matches(tree@, Label::PointCounts, i as int, &counts_val),
            found_matches(tree@, Label::Widths, i as int, &widths_val),
            found_matches(tree@, Label::Colors, i as int, &colors_val),
        decreases n - i,
    {
        if tree[i].is_text {
            match &tree[i].text {
                Some(node_text) => {
                    proof {
                        lemma_labels_distinct();
                    }
                    if bytes_eq(node_text, &lab_points) {
                        match resolve_clean(tree, i) {
                            Some(v) => { points_val = Some(v); },
                            None => {
                                proof {
                                    lemma_first_bad_stays(tree@, i as int, tree@.len() as int);
                                }
                                return Err(SessionError::BrokenPath(Label::Points));
                            },
                        }
                    } else if bytes_eq(node_text, &lab_counts) {
                        match resolve_clean(tree, i) {
                            Some(v) => { counts_val = Some(v); },
                            None => {
                                proof {
                                    lemma_first_bad_stays(tree@, i as int, tree@.len() as int);
                                }
                                return Err(SessionError::BrokenPath(Label::PointCounts));
                            },
                        }
                    } else if bytes_eq(node_text, &lab_widths) {
                        match resolve_clean(tree, i) {
                            Some(v) => { widths_val = Some(v); },
                            None => {
                                proof {
                                    lemma_first_bad_stays(tree@, i as int, tree@.len() as int);
                                }
                                return Err(SessionError::BrokenPath(Label::Widths));
                            },
                        }
                    } else if bytes_eq(node_text, &lab_colors) {
                        match resolve_clean(tree, i) {
                            Some(v) => { colors_val = Some(v); },
                            None => {
                                proof {
                                    lemma_first_bad_stays(tree@, i as int, tree@.len() as int);
                                }
                                return Err(SessionError::BrokenPath(Label::Colors));
                            },
                        }
                    }
                },
                None => {},
            }
        }
        i = i + 1;
    }
    let counts = match counts_val {
        Some(v) => v,
        None => { return Err(SessionError::MissingLabel(Label::PointCounts)); },
    };
    let points = match points_val {
        Some(v) => v,
        None => { return Err(SessionError::MissingLabel(Label::Points)); },
    };
    let widths = match widths_val {
        Some(v) => v,
        None => { return Err(SessionError::MissingLabel(Label::Widths)); },
    };
    let colors = match colors_val {
        Some(v) => v,
        None => { return Err(SessionError::MissingLabel(Label::Colors)); },
    };
    Ok(SessionPayload { points, point_counts: counts, widths, colors })
}

/// The four label texts are pairwise different byte sequences.
proof fn lemma_labels_distinct()
    ensures
        label_text(Label::Points) != label_text(Label::PointCounts),
        label_text(Label::Points) != label_text(Label::Widths),
        label_text(Label::Points) != label_text(Label::Colors),
        label_text(Label::PointCounts) != label_text(Label::Widths),
        label_text(Label::PointCounts) != label_text(Label::Colors),
        label_text(Label::Widths) != label_text(Label::Colors),
{
    assert(label_text(Label::Points).len() == 12);
    assert(label_text(Label::PointCounts).len() == 15);
    assert(label_text(Label::Widths).len() == 11);
    assert(label_text(Label::Colors).len() == 12);
    assert(label_text(Label::Points)[6] == 112);
    assert(label_text(Label::Colors)[6] == 99);
}

/// Once a label node fails to resolve and nothing failed before it, it stays
/// the first failure of every longer scan.
proof fn lemma_first_bad_stays(tree: Seq<XmlNode>, i: int, m: int)
    requires
        0 <= i < m,
        first_bad(tree, i) is None,
        node_fails(tree, i),
    ensures
        first_bad(tree, m) == Some(i),
    decreases m,
{
    if m > i + 1 {
        lemma_first_bad_stays(tree, i, m - 1);
    }
}

/// The running value held for label `l` after scanning nodes `0 .. i`:
/// no value exactly while the label has not occurred, else the cleaned
/// resolution of its last occurrence.
spec fn found_matches(
    tree: Seq<XmlNode>,
    l: Label,
    i: int,
    val: &Option<Vec<u8>>,
) -> bool {
    &&& (last_match(tree, l, i) is Some <==> *val is Some)
    &&& (*val is Some ==> {
        &&& resolve_at(tree, last_match(tree, l, i).unwrap()) is Some
        &&& val.unwrap()@ == clean(resolve_at(tree, last_match(tree, l, i).unwrap()).unwrap())
    })
}

} // verus!

