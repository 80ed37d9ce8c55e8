//! LinkedIn job descriptions: attributed text (`TextViewModel`) to Markdown.
//!
//! Paragraph and list-item attributes split the text into blocks; bold,
//! italic and link attributes become inline Markdown markers.

use crate::text::{
    is_white_space, join, join_vecs, vecs_view, trim_end_len, chars_of, eq_vec, push_all, push_str, slice_vec, string_of, trim, trim_end, trim_start,
    trim_vec,
};
use vstd::prelude::*;

verus! {

/// Text with attributes over character ranges.
#[derive(Debug, Clone)]
pub struct TextViewModel {
    pub text: String,
    pub attributes: Vec<TextAttribute>,
}

/// An attribute over the characters `start .. start + length`.
#[derive(Debug, Clone)]
pub struct TextAttribute {
    pub start: usize,
    pub length: usize,
    pub detail_data: TextAttributeDetail,
}

#[derive(Debug, Clone)]
pub struct TextAttributeDetail {
    pub style: Option<String>,
    pub hyperlink: Option<String>,
    pub text_link: Option<TextLink>,
}

#[derive(Debug, Clone)]
pub struct TextLink {
    pub url: Option<String>,
    pub redirect_url: Option<String>,
}

/// One description card: optional header and a body.
#[derive(Debug, Clone)]
pub struct DescriptionSection {
    pub header: Option<TextViewModel>,
    pub body: TextViewModel,
}

impl Default for TextAttributeDetail {
    fn default() -> (r: Self)
        ensures
            r.style is None,
            r.hyperlink is None,
            r.text_link is None,
    {
        TextAttributeDetail { style: None, hyperlink: None, text_link: None }
    }
}

impl Default for TextLink {
    fn default() -> (r: Self)
        ensures
            r.url is None,
            r.redirect_url is None,
    {
        TextLink { url: None, redirect_url: None }
    }
}

#[derive(Debug, Clone, Copy, PartialEq, Eq, Structural)]
pub enum BlockKind {
    Paragraph,
    ListItem,
}

/// A paragraph or list item over the characters `start .. end`.
#[derive(Debug, Clone, Copy)]
pub struct Block {
    pub start: usize,
    pub end: usize,
    pub kind: BlockKind,
}

#[derive(Debug, Clone)]
pub enum InlineStyleKind {
    Bold,
    Italic,
    Link(Vec<char>),
}

/// Bold, italic or link over the characters `start .. end`.
#[derive(Debug, Clone)]
pub struct InlineStyle {
    pub start: usize,
    pub end: usize,
    pub kind: InlineStyleKind,
}

/// An inline style over character sequences.
pub enum StyleKindView {
    Bold,
    Italic,
    Link(Seq<char>),
}

pub struct StyleView {
    pub start: usize,
    pub end: usize,
    pub kind: StyleKindView,
}

impl View for InlineStyle {
    type V = StyleView;

    open spec fn view(&self) -> StyleView {
        StyleView {
            start: self.start,
            end: self.end,
            kind: match self.kind {
                InlineStyleKind::Bold => StyleKindView::Bold,
                InlineStyleKind::Italic => StyleKindView::Italic,
                InlineStyleKind::Link(u) => StyleKindView::Link(u@),
            },
        }
    }
}

pub open spec fn opt_is(o: Option<String>, lit: Seq<char>) -> bool {
    match o {
        Some(s) => s@ == lit,
        None => false,
    }
}

pub open spec fn style_of(a: TextAttribute) -> Option<String> {
    a.detail_data.style
}

/// The link target: the hyperlink, else the text link's URL, else its
/// redirect URL.
pub open spec fn attr_url(d: TextAttributeDetail) -> Option<Seq<char>> {
    match d.hyperlink {
        Some(h) => Some(h@),
        None => match d.text_link {
            Some(l) => match l.url {
                Some(u) => Some(u@),
                None => match l.redirect_url {
                    Some(r) => Some(r@),
                    None => None,
                },
            },
            None => None,
        },
    }
}

/// An attribute is kept when it covers at least one character of the text.
pub open spec fn valid_attr(a: TextAttribute, n: nat) -> bool {
    a.length > 0 && a.start + a.length <= n
}

pub open spec fn valid_attrs(s: Seq<TextAttribute>, n: nat) -> Seq<TextAttribute>
    decreases s.len(),
{
    if s.len() == 0 {
        s
    } else if valid_attr(s.last(), n) {
        valid_attrs(s.drop_last(), n).push(s.last())
    } else {
        valid_attrs(s.drop_last(), n)
    }
}

/// `e` sorts after `x`: later start, or same start and shorter.
pub open spec fn sorts_after(e: TextAttribute, x: TextAttribute) -> bool {
    e.start > x.start || (e.start == x.start && e.length < x.length)
}

/// Inserts `x` after every element that does not sort after it.
pub open spec fn insert_sorted(s: Seq<TextAttribute>, x: TextAttribute) -> Seq<TextAttribute>
    decreases s.len(),
{
    if s.len() == 0 {
        seq![x]
    } else if sorts_after(s.last(), x) {
        insert_sorted(s.drop_last(), x).push(s.last())
    } else {
        s.push(x)
    }
}

/// Stable sort by start, longer first on equal starts (insertion order
/// kept among equal keys).
pub open spec fn sort_attrs(s: Seq<TextAttribute>) -> Seq<TextAttribute>
    decreases s.len(),
{
    if s.len() == 0 {
        s
    } else {
        insert_sorted(sort_attrs(s.drop_last()), s.last())
    }
}

/// Paragraph and list-item attributes as blocks, in order.
pub open spec fn block_attrs(s: Seq<TextAttribute>) -> Seq<Block>
    decreases s.len(),
{
    if s.len() == 0 {
        Seq::empty()
    } else {
        let a = s.last();
        let rest = block_attrs(s.drop_last());
        if opt_is(style_of(a), "PARAGRAPH"@) || opt_is(style_of(a), "LIST_ITEM"@) {
            rest.push(
                Block {
                    start: a.start,
                    end: (a.start + a.length) as usize,
                    kind: if opt_is(style_of(a), "LIST_ITEM"@) {
                        BlockKind::ListItem
                    } else {
                        BlockKind::Paragraph
                    },
                },
            )
        } else {
            rest
        }
    }
}

/// Blocks from the `i`-th block attribute on, `pos` being the end of what
/// is covered so far: gaps become paragraphs, and so does the tail.
pub open spec fn blocks_from(ba: Seq<Block>, i: int, pos: nat, n: nat) -> Seq<Block>
    decreases ba.len() - i,
{
    if i < 0 || i >= ba.len() {
        if pos < n {
            seq![Block { start: pos as usize, end: n as usize, kind: BlockKind::Paragraph }]
        } else {
            Seq::empty()
        }
    } else {
        let a = ba[i];
        let gap = if a.start > pos {
            seq![Block { start: pos as usize, end: a.start, kind: BlockKind::Paragraph }]
        } else {
            Seq::empty()
        };
        let next_pos: nat = if a.end as nat > pos {
            a.end as nat
        } else {
            pos
        };
        gap + seq![Block { start: a.start, end: a.end, kind: a.kind }] + blocks_from(
            ba,
            i + 1,
            next_pos,
            n,
        )
    }
}

/// The inline style an attribute gives, if any.
pub open spec fn inline_of(a: TextAttribute) -> Option<StyleView> {
    let end = (a.start + a.length) as usize;
    if opt_is(style_of(a), "BOLD"@) {
        Some(StyleView { start: a.start, end, kind: StyleKindView::Bold })
    } else if opt_is(style_of(a), "ITALIC"@) {
        Some(StyleView { start: a.start, end, kind: StyleKindView::Italic })
    } else if opt_is(style_of(a), "URL"@) || opt_is(style_of(a), "HYPERLINK"@) {
        match attr_url(a.detail_data) {
            Some(u) => Some(StyleView { start: a.start, end, kind: StyleKindView::Link(u) }),
            None => None,
        }
    } else {
        None
    }
}

pub open spec fn inline_styles(s: Seq<TextAttribute>) -> Seq<StyleView>
    decreases s.len(),
{
    if s.len() == 0 {
        Seq::empty()
    } else {
        match inline_of(s.last()) {
            Some(st) => inline_styles(s.drop_last()).push(st),
            None => inline_styles(s.drop_last()),
        }
    }
}


/// The attributes `order` points at, in that order.
pub open spec fn attrs_at(attrs: Seq<TextAttribute>, order: Seq<usize>) -> Seq<TextAttribute> {
    Seq::new(order.len(), |j: int| attrs[order[j] as int])
}

/// Where `insert_sorted` puts `x`: after the last element that does not
/// sort after it.
pub open spec fn insert_position(s: Seq<TextAttribute>, x: TextAttribute) -> int
    decreases s.len(),
{
    if s.len() == 0 {
        0
    } else if sorts_after(s.last(), x) {
        insert_position(s.drop_last(), x)
    } else {
        s.len() as int
    }
}

proof fn lemma_insert_sorted_split(s: Seq<TextAttribute>, x: TextAttribute)
    ensures
        0 <= insert_position(s, x) <= s.len(),
        insert_sorted(s, x) == s.subrange(0, insert_position(s, x)).push(x) + s.subrange(
            insert_position(s, x),
            s.len() as int,
        ),
    decreases s.len(),
{
    if s.len() == 0 {
        assert(insert_sorted(s, x) =~= s.subrange(0, 0).push(x) + s.subrange(0, 0));
    } else if sorts_after(s.last(), x) {
        let t = s.drop_last();
        lemma_insert_sorted_split(t, x);
        let p = insert_position(t, x);
        assert(t.subrange(0, p) =~= s.subrange(0, p));
        assert(t.subrange(p, t.len() as int).push(s.last()) =~= s.subrange(p, s.len() as int));
        assert(insert_sorted(s, x) =~= s.subrange(0, p).push(x) + s.subrange(p, s.len() as int));
    } else {
        assert(insert_sorted(s, x) =~= s.subrange(0, s.len() as int).push(x) + s.subrange(
            s.len() as int,
            s.len() as int,
        ));
    }
}

proof fn lemma_insert_position_scan(s: Seq<TextAttribute>, x: TextAttribute, j: int)
    requires
        0 <= j <= s.len(),
        forall|k: int| j <= k < s.len() ==> sorts_after(#[trigger] s[k], x),
        j == 0 || !sorts_after(s[j - 1], x),
    ensures
        insert_position(s, x) == j,
    decreases s.len(),
{
    if s.len() > 0 && j < s.len() {
        let t = s.drop_last();
        assert(sorts_after(s[s.len() - 1], x));
        lemma_insert_position_scan(t, x, j);
    }
}

pub fn opt_is_exec(o: &Option<String>, lit: &str) -> (r: bool)
    ensures
        r == opt_is(*o, lit@),
{
    match o {
        Some(s) => eq_vec(&chars_of(s.as_str()), &chars_of(lit)),
        None => false,
    }
}

/// Indices of the attributes that cover some of the `n` characters, in
/// stable (start, longer-first) order.
fn sorted_valid_order(attrs: &Vec<TextAttribute>, n: usize) -> (r: Vec<usize>)
    ensures
        forall|j: int| 0 <= j < r.len() ==> (#[trigger] r@[j]) < attrs.len(),
        attrs_at(attrs@, r@) == sort_attrs(valid_attrs(attrs@, n as nat)),
{
    let mut order: Vec<usize> = Vec::new();
    let mut i: usize = 0;
    while i < attrs.len()
        invariant
            i <= attrs.len(),
            forall|j: int| 0 <= j < order.len() ==> (#[trigger] order@[j]) < attrs.len(),
            attrs_at(attrs@, order@) == sort_attrs(valid_attrs(attrs@.subrange(0, i as int), n as nat)),
        decreases attrs.len() - i,
    {
        let a = &attrs[i];
        proof {
            assert(attrs@.subrange(0, i + 1).drop_last() =~= attrs@.subrange(0, i as int));
        }
        let ghost before = attrs_at(attrs@, order@);
        if a.length > 0 && a.start <= n && a.length <= n - a.start {
            let mut j: usize = order.len();
            while j > 0 && (attrs[order[j - 1]].start > a.start || (attrs[order[j - 1]].start
                == a.start && attrs[order[j - 1]].length < a.length))
                invariant
                    j <= order.len(),
                    before == attrs_at(attrs@, order@),
                    forall|k: int| 0 <= k < order.len() ==> (#[trigger] order@[k]) < attrs.len(),
                    forall|k: int| j <= k < before.len() ==> sorts_after(#[trigger] before[k], *a),
                decreases j,
            {
                j = j - 1;
            }
            proof {
                lemma_insert_position_scan(before, *a, j as int);
                lemma_insert_sorted_split(before, *a);
                assert(valid_attrs(attrs@.subrange(0, i + 1), n as nat) == valid_attrs(
                    attrs@.subrange(0, i as int),
                    n as nat,
                ).push(*a));
                assert(sort_attrs(valid_attrs(attrs@.subrange(0, i + 1), n as nat)).len() > 0 ==>
                    true);
            }
            order.insert(j, i);
            proof {
                let v = valid_attrs(attrs@.subrange(0, i + 1), n as nat);
                assert(v.drop_last() == valid_attrs(attrs@.subrange(0, i as int), n as nat));
                assert(attrs_at(attrs@, order@) =~= before.subrange(0, j as int).push(*a)
                    + before.subrange(j as int, before.len() as int));
            }
        }
        i = i + 1;
    }
    proof {
        assert(attrs@.subrange(0, i as int) =~= attrs@);
    }
    order
}


pub open spec fn all_valid(s: Seq<TextAttribute>, n: nat) -> bool {
    forall|k: int| 0 <= k < s.len() ==> valid_attr(#[trigger] s[k], n)
}

proof fn lemma_valid_attrs_valid(s: Seq<TextAttribute>, n: nat)
    ensures
        all_valid(valid_attrs(s, n), n),
    decreases s.len(),
{
    if s.len() > 0 {
        lemma_valid_attrs_valid(s.drop_last(), n);
    }
}

proof fn lemma_sort_keeps_valid(s: Seq<TextAttribute>, n: nat)
    requires
        all_valid(s, n),
    ensures
        all_valid(sort_attrs(s), n),
    decreases s.len(),
{
    if s.len() > 0 {
        let t = sort_attrs(s.drop_last());
        lemma_sort_keeps_valid(s.drop_last(), n);
        lemma_insert_sorted_split(t, s.last());
        let p = insert_position(t, s.last());
        let r = insert_sorted(t, s.last());
        assert forall|k: int| 0 <= k < r.len() implies valid_attr(#[trigger] r[k], n) by {
            if k < p {
                assert(r[k] == t[k]);
            } else if k == p {
                assert(r[k] == s.last());
            } else {
                assert(r[k] == t[k - 1]);
            }
        }
    }
}

/// Blocks lie inside the text: `start <= end <= n`.
pub open spec fn blocks_bounded(bs: Seq<Block>, n: nat) -> bool {
    forall|k: int| 0 <= k < bs.len() ==> (#[trigger] bs[k]).start <= bs[k].end && bs[k].end <= n
}

/// The block attributes among the sorted valid attributes.
fn block_attrs_exec(attrs: &Vec<TextAttribute>, order: &Vec<usize>, n: usize) -> (r: Vec<Block>)
    requires
        forall|j: int| 0 <= j < order.len() ==> (#[trigger] order@[j]) < attrs.len(),
        all_valid(attrs_at(attrs@, order@), n as nat),
    ensures
        r@ == block_attrs(attrs_at(attrs@, order@)),
        blocks_bounded(r@, n as nat),
        forall|k: int| 0 <= k < r.len() ==> (#[trigger] r@[k]).start < r@[k].end,
{
    let mut r: Vec<Block> = Vec::new();
    let mut i: usize = 0;
    let ghost sorted = attrs_at(attrs@, order@);
    while i < order.len()
        invariant
            i <= order.len(),
            sorted == attrs_at(attrs@, order@),
            forall|j: int| 0 <= j < order.len() ==> (#[trigger] order@[j]) < attrs.len(),
            all_valid(sorted, n as nat),
            r@ == block_attrs(sorted.subrange(0, i as int)),
            blocks_bounded(r@, n as nat),
            forall|k: int| 0 <= k < r.len() ==> (#[trigger] r@[k]).start < r@[k].end,
        decreases order.len() - i,
    {
        let a = &attrs[order[i]];
        proof {
            assert(sorted.subrange(0, i + 1).drop_last() =~= sorted.subrange(0, i as int));
            assert(sorted[i as int] == *a);
            assert(valid_attr(sorted[i as int], n as nat));
        }
        let is_list = opt_is_exec(&a.detail_data.style, "LIST_ITEM");
        if opt_is_exec(&a.detail_data.style, "PARAGRAPH") || is_list {
            r.push(
                Block {
                    start: a.start,
                    end: a.start + a.length,
                    kind: if is_list {
                        BlockKind::ListItem
                    } else {
                        BlockKind::Paragraph
                    },
                },
            );
        }
        i = i + 1;
    }
    proof {
        assert(sorted.subrange(0, i as int) =~= sorted);
    }
    r
}

/// Paragraph and list-item blocks covering the `n` characters: attribute
/// blocks in order, with the gaps between them as paragraphs.
fn build_blocks(ba: &Vec<Block>, n: usize) -> (r: Vec<Block>)
    requires
        blocks_bounded(ba@, n as nat),
        forall|k: int| 0 <= k < ba.len() ==> (#[trigger] ba@[k]).start < ba@[k].end,
    ensures
        r@ == blocks_from(ba@, 0, 0, n as nat),
        blocks_bounded(r@, n as nat),
{
    let mut r: Vec<Block> = Vec::new();
    let mut pos: usize = 0;
    let mut i: usize = 0;
    while i < ba.len()
        invariant
            i <= ba.len(),
            pos <= n,
            blocks_bounded(ba@, n as nat),
            forall|k: int| 0 <= k < ba.len() ==> (#[trigger] ba@[k]).start < ba@[k].end,
            r@ + blocks_from(ba@, i as int, pos as nat, n as nat) == blocks_from(
                ba@,
                0,
                0,
                n as nat,
            ),
            blocks_bounded(r@, n as nat),
        decreases ba.len() - i,
    {
        let a = ba[i];
        let ghost r0 = r@;
        assert(ba@[i as int] == a);
        if a.start > pos {
            r.push(Block { start: pos, end: a.start, kind: BlockKind::Paragraph });
        }
        r.push(Block { start: a.start, end: a.end, kind: a.kind });
        let next = if a.end > pos {
            a.end
        } else {
            pos
        };
        proof {
            let gap = if a.start > pos {
                seq![Block { start: pos, end: a.start, kind: BlockKind::Paragraph }]
            } else {
                Seq::empty()
            };
            assert(r@ =~= r0 + gap + seq![Block { start: a.start, end: a.end, kind: a.kind }]);
            assert(r@ + blocks_from(ba@, i + 1, next as nat, n as nat) =~= r0 + blocks_from(
                ba@,
                i as int,
                pos as nat,
                n as nat,
            ));
        }
        pos = next;
        i = i + 1;
    }
    let ghost r0 = r@;
    if pos < n {
        r.push(Block { start: pos, end: n, kind: BlockKind::Paragraph });
    }
    proof {
        assert(r@ =~= r0 + blocks_from(ba@, i as int, pos as nat, n as nat));
    }
    r
}


pub open spec fn styles_view(v: Seq<InlineStyle>) -> Seq<StyleView> {
    v.map_values(|st: InlineStyle| st@)
}

/// Styles lie inside the text and cover at least one character.
pub open spec fn styles_bounded(v: Seq<StyleView>, n: nat) -> bool {
    forall|k: int| 0 <= k < v.len() ==> (#[trigger] v[k]).start < v[k].end && v[k].end <= n
}

/// The inline styles of the sorted valid attributes.
fn styles_exec(attrs: &Vec<TextAttribute>, order: &Vec<usize>, n: usize) -> (r: Vec<InlineStyle>)
    requires
        forall|j: int| 0 <= j < order.len() ==> (#[trigger] order@[j]) < attrs.len(),
        all_valid(attrs_at(attrs@, order@), n as nat),
    ensures
        styles_view(r@) == inline_styles(attrs_at(attrs@, order@)),
        styles_bounded(styles_view(r@), n as nat),
{
    let mut r: Vec<InlineStyle> = Vec::new();
    let mut i: usize = 0;
    let ghost sorted = attrs_at(attrs@, order@);
    while i < order.len()
        invariant
            i <= order.len(),
            sorted == attrs_at(attrs@, order@),
            forall|j: int| 0 <= j < order.len() ==> (#[trigger] order@[j]) < attrs.len(),
            all_valid(sorted, n as nat),
            styles_view(r@) == inline_styles(sorted.subrange(0, i as int)),
            styles_bounded(styles_view(r@), n as nat),
        decreases order.len() - i,
    {
        let a = &attrs[order[i]];
        proof {
            assert(sorted.subrange(0, i + 1).drop_last() =~= sorted.subrange(0, i as int));
            assert(sorted[i as int] == *a);
            assert(valid_attr(sorted[i as int], n as nat));
        }
        let end = a.start + a.length;
        let d = &a.detail_data;
        let kind: Option<InlineStyleKind> = if opt_is_exec(&d.style, "BOLD") {
            Some(InlineStyleKind::Bold)
        } else if opt_is_exec(&d.style, "ITALIC") {
            Some(InlineStyleKind::Italic)
        } else if opt_is_exec(&d.style, "URL") || opt_is_exec(&d.style, "HYPERLINK") {
            let url: Option<&String> = match &d.hyperlink {
                Some(h) => Some(h),
                None => match &d.text_link {
                    Some(l) => match &l.url {
                        Some(u) => Some(u),
                        None => match &l.redirect_url {
                            Some(x) => Some(x),
                            None => None,
                        },
                    },
                    None => None,
                },
            };
            match url {
                Some(u) => Some(InlineStyleKind::Link(chars_of(u.as_str()))),
                None => None,
            }
        } else {
            None
        };
        let ghost r0 = r@;
        match kind {
            Some(k) => {
                r.push(InlineStyle { start: a.start, end, kind: k });
                assert(styles_view(r@) =~= styles_view(r0).push(r@.last()@));
            },
            None => {},
        }
        i = i + 1;
    }
    proof {
        assert(sorted.subrange(0, i as int) =~= sorted);
    }
    r
}

/// `st` cut to `a .. b`, when something of it is left.
pub open spec fn clip(st: StyleView, a: nat, b: nat) -> Option<StyleView> {
    if st.end > a && st.start < b {
        let s2 = if st.start > a {
            st.start
        } else {
            a as usize
        };
        let e2 = if st.end < b {
            st.end
        } else {
            b as usize
        };
        if s2 < e2 {
            Some(StyleView { start: s2, end: e2, kind: st.kind })
        } else {
            None
        }
    } else {
        None
    }
}

/// The styles that overlap the segment `a .. b`, cut to it.
pub open spec fn seg_styles(v: Seq<StyleView>, a: nat, b: nat) -> Seq<StyleView>
    decreases v.len(),
{
    if v.len() == 0 {
        Seq::empty()
    } else {
        match clip(v.last(), a, b) {
            Some(c) => seg_styles(v.drop_last(), a, b).push(c),
            None => seg_styles(v.drop_last(), a, b),
        }
    }
}

/// Some style starts or ends at `p`.
pub open spec fn touches(v: Seq<StyleView>, p: nat) -> bool
    decreases v.len(),
{
    v.len() > 0 && (v.last().start == p || v.last().end == p || touches(v.drop_last(), p))
}

pub open spec fn is_boundary(v: Seq<StyleView>, a: nat, b: nat, p: nat) -> bool {
    p == a || p == b || touches(v, p)
}

/// The boundaries below `p`, ascending: segment ends and style edges.
pub open spec fn boundaries_below(v: Seq<StyleView>, a: nat, b: nat, p: nat) -> Seq<nat>
    decreases p,
{
    if p <= a {
        Seq::empty()
    } else {
        let rest = boundaries_below(v, a, b, (p - 1) as nat);
        if is_boundary(v, a, b, (p - 1) as nat) {
            rest.push((p - 1) as nat)
        } else {
            rest
        }
    }
}

/// The kinds of the styles covering all of `s .. e`, in order.
pub open spec fn active(v: Seq<StyleView>, s: nat, e: nat) -> Seq<StyleKindView>
    decreases v.len(),
{
    if v.len() == 0 {
        Seq::empty()
    } else if v.last().start <= s && v.last().end >= e {
        active(v.drop_last(), s, e).push(v.last().kind)
    } else {
        active(v.drop_last(), s, e)
    }
}

pub open spec fn has_bold(k: Seq<StyleKindView>) -> bool {
    exists|i: int| 0 <= i < k.len() && k[i] is Bold
}

pub open spec fn has_italic(k: Seq<StyleKindView>) -> bool {
    exists|i: int| 0 <= i < k.len() && k[i] is Italic
}

/// URL of the first link kind, if any.
pub open spec fn first_link(k: Seq<StyleKindView>) -> Option<Seq<char>>
    decreases k.len(),
{
    if k.len() == 0 {
        None
    } else {
        match first_link(k.drop_last()) {
            Some(u) => Some(u),
            None => match k.last() {
                StyleKindView::Link(u) => Some(u),
                _ => None,
            },
        }
    }
}

/// "***", "**", "*" or nothing.
pub open spec fn marks(bold: bool, italic: bool) -> Seq<char> {
    if bold && italic {
        seq!['*', '*', '*']
    } else if bold {
        seq!['*', '*']
    } else if italic {
        seq!['*']
    } else {
        Seq::empty()
    }
}

/// `t` with the Markdown of the kinds `k`: emphasis marks around it and,
/// for a link, `[...](url)`.
pub open spec fn styled(t: Seq<char>, k: Seq<StyleKindView>) -> Seq<char> {
    let m = marks(has_bold(k), has_italic(k));
    let inner = m + t + m;
    match first_link(k) {
        Some(u) => seq!['['] + inner + seq![']', '('] + u + seq![')'],
        None => inner,
    }
}

/// One piece `s .. e` between consecutive boundaries: its text with the
/// trailing white space kept outside the markers.
pub open spec fn piece(chars: Seq<char>, v: Seq<StyleView>, a: nat, b: nat, s: nat, e: nat) -> Seq<
    char,
> {
    if s < a || e > b || s >= e {
        Seq::empty()
    } else {
        let text = chars.subrange(s as int, e as int);
        let t = trim_end(text);
        if t.len() == 0 {
            text
        } else {
            styled(t, active(v, s, e)) + text.subrange(t.len() as int, text.len() as int)
        }
    }
}

/// The pieces from the `i`-th boundary on.
pub open spec fn pieces(chars: Seq<char>, v: Seq<StyleView>, a: nat, b: nat, bs: Seq<nat>, i: int) -> Seq<char>
    decreases bs.len() - i,
{
    if i < 0 || i + 1 >= bs.len() {
        Seq::empty()
    } else {
        piece(chars, v, a, b, bs[i], bs[i + 1]) + pieces(chars, v, a, b, bs, i + 1)
    }
}

/// Markdown of the characters `a .. b` under the inline styles `styles`.
pub open spec fn format_inline_spec(chars: Seq<char>, styles: Seq<StyleView>, a: nat, b: nat) -> Seq<
    char,
> {
    let v = seg_styles(styles, a, b);
    if v.len() == 0 {
        chars.subrange(a as int, b as int)
    } else {
        pieces(chars, v, a, b, boundaries_below(v, a, b, b + 1), 0)
    }
}


/// A style cut to the current segment, with the index of the style.
#[derive(Clone, Copy)]
struct SegStyle {
    start: usize,
    end: usize,
    idx: usize,
}

spec fn seg_view(seg: Seq<SegStyle>, styles: Seq<InlineStyle>) -> Seq<StyleView> {
    seg.map_values(
        |g: SegStyle| StyleView { start: g.start, end: g.end, kind: styles[g.idx as int]@.kind },
    )
}

spec fn seg_ok(seg: Seq<SegStyle>, styles: Seq<InlineStyle>, a: nat, b: nat) -> bool {
    forall|k: int|
        0 <= k < seg.len() ==> (#[trigger] seg[k]).idx < styles.len() && a <= seg[k].start
            && seg[k].start < seg[k].end && seg[k].end <= b
}

fn segment_styles(styles: &Vec<InlineStyle>, a: usize, b: usize) -> (r: Vec<SegStyle>)
    ensures
        seg_view(r@, styles@) == seg_styles(styles_view(styles@), a as nat, b as nat),
        seg_ok(r@, styles@, a as nat, b as nat),
{
    let mut r: Vec<SegStyle> = Vec::new();
    let mut i: usize = 0;
    let ghost sv = styles_view(styles@);
    while i < styles.len()
        invariant
            i <= styles.len(),
            sv == styles_view(styles@),
            seg_view(r@, styles@) == seg_styles(sv.subrange(0, i as int), a as nat, b as nat),
            seg_ok(r@, styles@, a as nat, b as nat),
        decreases styles.len() - i,
    {
        let st = &styles[i];
        proof {
            assert(sv.subrange(0, i + 1).drop_last() =~= sv.subrange(0, i as int));
            assert(sv.subrange(0, i + 1).last() == st@);
        }
        if st.end > a && st.start < b {
            let s2 = if st.start > a {
                st.start
            } else {
                a
            };
            let e2 = if st.end < b {
                st.end
            } else {
                b
            };
            if s2 < e2 {
                let ghost r0 = r@;
                r.push(SegStyle { start: s2, end: e2, idx: i });
                assert(seg_view(r@, styles@) =~= seg_view(r0, styles@).push(
                    StyleView { start: s2, end: e2, kind: st@.kind },
                ));
            }
        }
        i = i + 1;
    }
    proof {
        assert(sv.subrange(0, i as int) =~= sv);
    }
    r
}

fn touches_exec(seg: &Vec<SegStyle>, Ghost(styles): Ghost<Seq<InlineStyle>>, p: usize) -> (r: bool)
    ensures
        r == touches(seg_view(seg@, styles), p as nat),
{
    let mut k: usize = 0;
    let mut found = false;
    let ghost v = seg_view(seg@, styles);
    while k < seg.len()
        invariant
            k <= seg.len(),
            v == seg_view(seg@, styles),
            found == touches(v.subrange(0, k as int), p as nat),
        decreases seg.len() - k,
    {
        proof {
            assert(v.subrange(0, k + 1).drop_last() =~= v.subrange(0, k as int));
        }
        if seg[k].start == p || seg[k].end == p {
            found = true;
        }
        k = k + 1;
    }
    proof {
        assert(v.subrange(0, k as int) =~= v);
    }
    found
}

/// Ascending boundaries of the segment `a .. b`.
fn segment_boundaries(
    seg: &Vec<SegStyle>,
    Ghost(styles): Ghost<Seq<InlineStyle>>,
    a: usize,
    b: usize,
) -> (r: Vec<usize>)
    requires
        a <= b,
    ensures
        r@.map_values(|x: usize| x as nat) == boundaries_below(
            seg_view(seg@, styles),
            a as nat,
            b as nat,
            (b + 1) as nat,
        ),
        forall|k: int| 0 <= k < r.len() ==> a <= (#[trigger] r@[k]) <= b,
        r.len() >= 1,
{
    let mut r: Vec<usize> = Vec::new();
    let mut p: usize = a;
    let ghost v = seg_view(seg@, styles);
    while p < b
        invariant
            a <= p <= b,
            v == seg_view(seg@, styles),
            r@.map_values(|x: usize| x as nat) == boundaries_below(v, a as nat, b as nat, p as nat),
            forall|k: int| 0 <= k < r.len() ==> a <= (#[trigger] r@[k]) < p,
        decreases b - p,
    {
        let ghost r0 = r@;
        if p == a || touches_exec(seg, Ghost(styles), p) {
            r.push(p);
            assert(r@.map_values(|x: usize| x as nat) =~= r0.map_values(|x: usize| x as nat).push(
                p as nat,
            ));
        }
        p = p + 1;
    }
    let ghost r0 = r@;
    r.push(b);
    assert(r@.map_values(|x: usize| x as nat) =~= r0.map_values(|x: usize| x as nat).push(
        b as nat,
    ));
    r
}


proof fn lemma_has_push(ks: Seq<StyleKindView>, k: StyleKindView)
    ensures
        has_bold(ks.push(k)) == (has_bold(ks) || k is Bold),
        has_italic(ks.push(k)) == (has_italic(ks) || k is Italic),
{
    let p = ks.push(k);
    if has_bold(ks) {
        let i = choose|i: int| 0 <= i < ks.len() && ks[i] is Bold;
        assert(p[i] is Bold);
    }
    if k is Bold {
        assert(p[ks.len() as int] is Bold);
    }
    if has_bold(p) {
        let i = choose|i: int| 0 <= i < p.len() && p[i] is Bold;
        if i < ks.len() {
            assert(ks[i] is Bold);
        }
    }
    if has_italic(ks) {
        let i = choose|i: int| 0 <= i < ks.len() && ks[i] is Italic;
        assert(p[i] is Italic);
    }
    if k is Italic {
        assert(p[ks.len() as int] is Italic);
    }
    if has_italic(p) {
        let i = choose|i: int| 0 <= i < p.len() && p[i] is Italic;
        if i < ks.len() {
            assert(ks[i] is Italic);
        }
    }
}

fn push_marks(out: &mut Vec<char>, bold: bool, italic: bool)
    ensures
        final(out)@ == old(out)@ + marks(bold, italic),
{
    if bold && italic {
        out.push('*');
        out.push('*');
        out.push('*');
    } else if bold {
        out.push('*');
        out.push('*');
    } else if italic {
        out.push('*');
    }
    assert(out@ =~= old(out)@ + marks(bold, italic));
}

/// Markdown of one piece `s .. e` of the segment `a .. b`.
fn piece_exec(
    chars: &Vec<char>,
    seg: &Vec<SegStyle>,
    styles: &Vec<InlineStyle>,
    a: usize,
    b: usize,
    s: usize,
    e: usize,
) -> (r: Vec<char>)
    requires
        b <= chars.len(),
        seg_ok(seg@, styles@, a as nat, b as nat),
    ensures
        r@ == piece(chars@, seg_view(seg@, styles@), a as nat, b as nat, s as nat, e as nat),
{
    if s < a || e > b || s >= e {
        return Vec::new();
    }
    let text = slice_vec(chars, s, e);
    let tl = trim_end_len(&text);
    if tl == 0 {
        return text;
    }
    let ghost v = seg_view(seg@, styles@);
    let mut bold = false;
    let mut italic = false;
    let mut link: Option<usize> = None;
    let mut k: usize = 0;
    while k < seg.len()
        invariant
            k <= seg.len(),
            v == seg_view(seg@, styles@),
            seg_ok(seg@, styles@, a as nat, b as nat),
            bold == has_bold(active(v.subrange(0, k as int), s as nat, e as nat)),
            italic == has_italic(active(v.subrange(0, k as int), s as nat, e as nat)),
            match link {
                Some(j) => j < styles.len() && (styles@[j as int]@.kind matches StyleKindView::Link(
                    u,
                ) && first_link(active(v.subrange(0, k as int), s as nat, e as nat)) == Some(u)),
                None => first_link(active(v.subrange(0, k as int), s as nat, e as nat)) is None,
            },
        decreases seg.len() - k,
    {
        let g = seg[k];
        let ghost pre = active(v.subrange(0, k as int), s as nat, e as nat);
        proof {
            assert(v[k as int].kind == styles@[g.idx as int]@.kind);
            assert(pre.push(v[k as int].kind).drop_last() =~= pre);
            assert(v.subrange(0, k + 1).drop_last() =~= v.subrange(0, k as int));
            assert(v.subrange(0, k + 1).last() == v[k as int]);
            assert(g.idx < styles.len());
        }
        if g.start <= s && g.end >= e {
            proof {
                lemma_has_push(pre, v[k as int].kind);
            }
            match &styles[g.idx].kind {
                InlineStyleKind::Bold => {
                    bold = true;
                },
                InlineStyleKind::Italic => {
                    italic = true;
                },
                InlineStyleKind::Link(_) => {
                    if link.is_none() {
                        link = Some(g.idx);
                    }
                },
            }
        }
        k = k + 1;
    }
    proof {
        assert(v.subrange(0, k as int) =~= v);
    }
    let trimmed = slice_vec(&text, 0, tl);
    let mut out: Vec<char> = Vec::new();
    match link {
        Some(j) => {
            out.push('[');
            push_marks(&mut out, bold, italic);
            push_all(&mut out, &trimmed);
            push_marks(&mut out, bold, italic);
            out.push(']');
            out.push('(');
            match &styles[j].kind {
                InlineStyleKind::Link(u) => {
                    push_all(&mut out, u);
                },
                _ => {
                    assert(false);
                },
            }
            out.push(')');
        },
        None => {
            push_marks(&mut out, bold, italic);
            push_all(&mut out, &trimmed);
            push_marks(&mut out, bold, italic);
        },
    }
    let rest = slice_vec(&text, tl, text.len());
    push_all(&mut out, &rest);
    proof {
        let ks = active(v, s as nat, e as nat);
        let m = marks(has_bold(ks), has_italic(ks));
        assert(trimmed@ == trim_end(text@));
        match first_link(ks) {
            Some(u) => {
                assert(out@ =~= seq!['['] + (m + trimmed@ + m) + seq![']', '('] + u + seq![')']
                    + rest@);
            },
            None => {
                assert(out@ =~= m + trimmed@ + m + rest@);
            },
        }
    }
    out
}

/// Markdown of the characters `a .. b` under the inline styles.
fn format_inline(chars: &Vec<char>, a: usize, b: usize, styles: &Vec<InlineStyle>) -> (r: Vec<
    char,
>)
    requires
        a <= b <= chars.len(),
    ensures
        r@ == format_inline_spec(chars@, styles_view(styles@), a as nat, b as nat),
{
    let seg = segment_styles(styles, a, b);
    if seg.len() == 0 {
        return slice_vec(chars, a, b);
    }
    let bs = segment_boundaries(&seg, Ghost(styles@), a, b);
    let ghost v = seg_view(seg@, styles@);
    let ghost bsn = bs@.map_values(|x: usize| x as nat);
    let mut out: Vec<char> = Vec::new();
    let mut i: usize = 0;
    while i + 1 < bs.len()
        invariant
            i < bs.len(),
            v == seg_view(seg@, styles@),
            bsn == bs@.map_values(|x: usize| x as nat),
            seg_ok(seg@, styles@, a as nat, b as nat),
            b <= chars.len(),
            out@ + pieces(chars@, v, a as nat, b as nat, bsn, i as int) == pieces(
                chars@,
                v,
                a as nat,
                b as nat,
                bsn,
                0,
            ),
        decreases bs.len() - i,
    {
        let p = piece_exec(chars, &seg, styles, a, b, bs[i], bs[i + 1]);
        let ghost o0 = out@;
        push_all(&mut out, &p);
        proof {
            assert(bsn[i as int] == bs@[i as int] as nat);
            assert(bsn[i + 1] == bs@[i + 1] as nat);
            assert(out@ + pieces(chars@, v, a as nat, b as nat, bsn, i + 1) =~= o0 + pieces(
                chars@,
                v,
                a as nat,
                b as nat,
                bsn,
                i as int,
            ));
        }
        i = i + 1;
    }
    proof {
        assert(pieces(chars@, v, a as nat, b as nat, bsn, i as int) =~= Seq::<char>::empty());
        assert(out@ + Seq::<char>::empty() =~= out@);
    }
    out
}


/// `s` without a leading bullet '•'.
pub open spec fn strip_bullet(s: Seq<char>) -> Seq<char> {
    if s.len() > 0 && s[0] == '\u{2022}' {
        s.drop_first()
    } else {
        s
    }
}

/// A list item line: "- " and the text without its bullet.
pub open spec fn list_line(f: Seq<char>) -> Seq<char> {
    seq!['-', ' '] + trim_start(strip_bullet(f))
}

/// The trimmed Markdown of one block.
pub open spec fn block_text(chars: Seq<char>, styles: Seq<StyleView>, b: Block) -> Seq<char> {
    trim(format_inline_spec(chars, styles, b.start as nat, b.end as nat))
}

/// The pending list items as one part, if there are any.
pub open spec fn flush(rendered: Seq<Seq<char>>, list: Seq<Seq<char>>) -> Seq<Seq<char>> {
    if list.len() > 0 {
        rendered.push(join(list, seq!['\n']))
    } else {
        rendered
    }
}

/// The parts rendered from the `i`-th block on: empty blocks are dropped,
/// consecutive list items are gathered into one part, each paragraph is a
/// part of its own.
pub open spec fn render_from(
    chars: Seq<char>,
    styles: Seq<StyleView>,
    blocks: Seq<Block>,
    i: int,
    rendered: Seq<Seq<char>>,
    list: Seq<Seq<char>>,
) -> Seq<Seq<char>>
    decreases blocks.len() - i,
{
    if i < 0 || i >= blocks.len() {
        flush(rendered, list)
    } else {
        let f = block_text(chars, styles, blocks[i]);
        if f.len() == 0 {
            render_from(chars, styles, blocks, i + 1, rendered, list)
        } else if blocks[i].kind == BlockKind::ListItem {
            render_from(chars, styles, blocks, i + 1, rendered, list.push(list_line(f)))
        } else {
            render_from(chars, styles, blocks, i + 1, flush(rendered, list).push(f), Seq::empty())
        }
    }
}

/// Markdown of attributed text: its parts separated by blank lines.
pub open spec fn format_text_spec(text: Seq<char>, attrs: Seq<TextAttribute>) -> Seq<char> {
    if text.len() == 0 {
        Seq::empty()
    } else {
        let sorted = sort_attrs(valid_attrs(attrs, text.len()));
        let blocks = blocks_from(block_attrs(sorted), 0, 0, text.len());
        let styles = inline_styles(sorted);
        join(render_from(text, styles, blocks, 0, Seq::empty(), Seq::empty()), seq!['\n', '\n'])
    }
}

/// Keeping the valid attributes twice keeps what keeping them once does.
proof fn lemma_valid_attrs_idempotent(s: Seq<TextAttribute>, n: nat)
    ensures
        valid_attrs(valid_attrs(s, n), n) == valid_attrs(s, n),
    decreases s.len(),
{
    if s.len() > 0 {
        lemma_valid_attrs_idempotent(s.drop_last(), n);
        let v = valid_attrs(s.drop_last(), n);
        if valid_attr(s.last(), n) {
            assert(v.push(s.last()).drop_last() =~= v);
            assert(v.push(s.last()).last() == s.last());
        }
    }
}

/// Attributes of no length, or that reach past the end of the text, are
/// ignored: the Markdown of a text is the same with them as with only the
/// attributes that lie within the text.
pub proof fn lemma_invalid_attributes_ignored(text: Seq<char>, attrs: Seq<TextAttribute>)
    ensures
        format_text_spec(text, attrs) == format_text_spec(text, valid_attrs(attrs, text.len())),
{
    lemma_valid_attrs_idempotent(attrs, text.len());
}

/// Text without attributes is one paragraph: its Markdown is the trimmed
/// text (nothing for blank text).
pub proof fn lemma_plain_text(text: Seq<char>)
    requires
        text.len() <= usize::MAX,
    ensures
        format_text_spec(text, Seq::empty()) == trim(text),
{
    let n = text.len();
    if n > 0 {
        let e = Seq::<TextAttribute>::empty();
        assert(valid_attrs(e, n) == e);
        assert(sort_attrs(e) == e);
        assert(block_attrs(e) =~= Seq::<Block>::empty());
        let blocks = blocks_from(Seq::<Block>::empty(), 0, 0, n);
        let b = Block { start: 0usize, end: n as usize, kind: BlockKind::Paragraph };
        assert(blocks == seq![b]);
        assert(inline_styles(e) =~= Seq::<StyleView>::empty());
        let none = Seq::<StyleView>::empty();
        assert(seg_styles(none, 0, n) =~= Seq::<StyleView>::empty());
        assert(text.subrange(0, n as int) =~= text);
        assert(format_inline_spec(text, none, 0, n) == text);
        assert(block_text(text, none, b) == trim(text));
        let f = trim(text);
        let empty = Seq::<Seq<char>>::empty();
        if f.len() == 0 {
            assert(render_from(text, none, blocks, 1, empty, empty) == empty);
            assert(render_from(text, none, blocks, 0, empty, empty) == empty);
            assert(join(empty, seq!['\n', '\n']) == f);
        } else {
            assert(flush(empty, empty) == empty);
            assert(render_from(text, none, blocks, 1, seq![f], empty) == seq![f]);
            assert(empty.push(f) =~= seq![f]);
            assert(render_from(text, none, blocks, 0, empty, empty) == seq![f]);
            assert(join(seq![f], seq!['\n', '\n']) == f);
        }
    } else {
        assert(trim(text) =~= text);
    }
}

fn flush_exec(rendered: &mut Vec<Vec<char>>, list: &mut Vec<Vec<char>>)
    ensures
        vecs_view(final(rendered)@) == flush(vecs_view(old(rendered)@), vecs_view(old(list)@)),
        final(list)@.len() == 0,
{
    if list.len() > 0 {
        let nl = vec!['\n'];
        assert(nl@ =~= seq!['\n']);
        let joined = join_vecs(list, &nl);
        rendered.push(joined);
        assert(vecs_view(rendered@) =~= vecs_view(old(rendered)@).push(joined@));
    }
    *list = Vec::new();
}

fn format_text(text: &str, attributes: &Vec<TextAttribute>) -> (r: Vec<char>)
    ensures
        r@ == format_text_spec(text@, attributes@),
{
    let chars = chars_of(text);
    if chars.len() == 0 {
        return Vec::new();
    }
    let n = chars.len();
    let order = sorted_valid_order(attributes, n);
    proof {
        lemma_valid_attrs_valid(attributes@, n as nat);
        lemma_sort_keeps_valid(valid_attrs(attributes@, n as nat), n as nat);
    }
    let ba = block_attrs_exec(attributes, &order, n);
    let blocks = build_blocks(&ba, n);
    let styles = styles_exec(attributes, &order, n);
    let ghost sv = styles_view(styles@);
    let mut rendered: Vec<Vec<char>> = Vec::new();
    let mut list: Vec<Vec<char>> = Vec::new();
    assert(vecs_view(rendered@) =~= Seq::<Seq<char>>::empty());
    assert(vecs_view(list@) =~= Seq::<Seq<char>>::empty());
    let mut i: usize = 0;
    while i < blocks.len()
        invariant
            i <= blocks.len(),
            n == chars.len(),
            blocks_bounded(blocks@, n as nat),
            sv == styles_view(styles@),
            render_from(chars@, sv, blocks@, i as int, vecs_view(rendered@), vecs_view(list@))
                == render_from(chars@, sv, blocks@, 0, Seq::empty(), Seq::empty()),
        decreases blocks.len() - i,
    {
        let blk = blocks[i];
        assert(blocks@[i as int] == blk);
        let inl = format_inline(&chars, blk.start, blk.end, &styles);
        let f = trim_vec(&inl);
        if f.len() > 0 {
            match blk.kind {
                BlockKind::ListItem => {
                    let mut start: usize = 0;
                    if f[0] == '\u{2022}' {
                        start = 1;
                    }
                    let stripped = slice_vec(&f, start, f.len());
                    assert(stripped@ == strip_bullet(f@)) by {
                        if f[0] == '\u{2022}' {
                            assert(stripped@ =~= f@.drop_first());
                        } else {
                            assert(stripped@ =~= f@);
                        }
                    }
                    let (a, _) = crate::text::trim_bounds(&stripped);
                    let rest = slice_vec(&stripped, a, stripped.len());
                    let mut line: Vec<char> = vec!['-', ' '];
                    push_all(&mut line, &rest);
                    assert(line@ =~= list_line(f@));
                    let ghost l0 = list@;
                    list.push(line);
                    assert(vecs_view(list@) =~= vecs_view(l0).push(line@));
                },
                BlockKind::Paragraph => {
                    flush_exec(&mut rendered, &mut list);
                    let ghost r0 = rendered@;
                    rendered.push(f);
                    assert(vecs_view(rendered@) =~= vecs_view(r0).push(f@));
                    assert(vecs_view(list@) =~= Seq::<Seq<char>>::empty());
                },
            }
        }
        i = i + 1;
    }
    flush_exec(&mut rendered, &mut list);
    let sep = vec!['\n', '\n'];
    assert(sep@ =~= seq!['\n', '\n']);
    join_vecs(&rendered, &sep)
}

/// `trim_end(s)` is a prefix of `s`, and what it leaves out is white space.
proof fn lemma_trim_end_split(s: Seq<char>)
    ensures
        trim_end(s).len() <= s.len(),
        trim_end(s) == s.subrange(0, trim_end(s).len() as int),
        forall|i: int| trim_end(s).len() <= i < s.len() ==> is_white_space(#[trigger] s[i]),
        trim_end(s).len() > 0 ==> !is_white_space(trim_end(s).last()),
    decreases s.len(),
{
    if s.len() > 0 && is_white_space(s.last()) {
        lemma_trim_end_split(s.drop_last());
        assert(s.drop_last().subrange(0, trim_end(s).len() as int) =~= s.subrange(
            0,
            trim_end(s).len() as int,
        ));
        assert forall|i: int| trim_end(s).len() <= i < s.len() implies is_white_space(
            #[trigger] s[i],
        ) by {
            if i < s.len() - 1 {
                assert(s.drop_last()[i] == s[i]);
            }
        }
    } else {
        assert(s.subrange(0, s.len() as int) =~= s);
    }
}

/// White space after a last character that is not white space is what
/// `trim_end` takes off.
proof fn lemma_trim_end_append_ws(x: Seq<char>, w: Seq<char>)
    requires
        x.len() > 0,
        !is_white_space(x.last()),
        forall|i: int| 0 <= i < w.len() ==> is_white_space(#[trigger] w[i]),
    ensures
        trim_end(x + w) == x,
    decreases w.len(),
{
    if w.len() == 0 {
        assert(x + w =~= x);
    } else {
        assert((x + w).drop_last() =~= x + w.drop_last());
        assert((x + w).last() == w.last());
        lemma_trim_end_append_ws(x, w.drop_last());
    }
}

/// The attribute `a` is the style `name` over the whole of a text of `n`
/// characters.
pub open spec fn whole_style(a: TextAttribute, n: nat, name: Seq<char>) -> bool {
    &&& a.start == 0
    &&& a.length == n
    &&& a.detail_data.style matches Some(st) && st@ == name
}

/// Text that is both bold and italic is wrapped in three asterisks on each
/// side: a text under a BOLD and an ITALIC attribute that each cover all of
/// it (in either order) becomes "***", the text without its trailing white
/// space, and "***".
pub proof fn lemma_bold_italic_text(text: Seq<char>, a: TextAttribute, b: TextAttribute)
    requires
        0 < text.len() <= usize::MAX,
        trim_end(text).len() > 0,
        (whole_style(a, text.len(), "BOLD"@) && whole_style(b, text.len(), "ITALIC"@)) || (
        whole_style(a, text.len(), "ITALIC"@) && whole_style(b, text.len(), "BOLD"@)),
    ensures
        format_text_spec(text, seq![a, b]) == seq!['*', '*', '*'] + trim_end(text) + seq![
            '*',
            '*',
            '*',
        ],
{
    reveal_strlit("BOLD");
    reveal_strlit("ITALIC");
    reveal_strlit("PARAGRAPH");
    reveal_strlit("LIST_ITEM");
    reveal_strlit("URL");
    reveal_strlit("HYPERLINK");
    let n = text.len();
    let attrs = seq![a, b];
    // Both attributes are kept, and sorting keeps their order.
    assert(attrs.drop_last() =~= seq![a]);
    assert(seq![a].drop_last() =~= Seq::<TextAttribute>::empty());
    assert(valid_attr(a, n));
    assert(valid_attr(b, n));
    assert(seq![a].last() == a);
    assert(attrs.last() == b);
    assert(valid_attrs(Seq::<TextAttribute>::empty(), n) =~= Seq::<TextAttribute>::empty());
    assert(Seq::<TextAttribute>::empty().push(a) =~= seq![a]);
    assert(valid_attrs(seq![a], n) =~= seq![a]);
    assert(valid_attrs(attrs, n) =~= attrs);
    assert(sort_attrs(Seq::<TextAttribute>::empty()) =~= Seq::<TextAttribute>::empty());
    assert(insert_sorted(Seq::<TextAttribute>::empty(), a) =~= seq![a]);
    assert(sort_attrs(seq![a]) =~= seq![a]);
    assert(insert_sorted(seq![a], b) =~= attrs);
    assert(sort_attrs(attrs) =~= attrs);
    // Neither is a block: the whole text is one paragraph.
    assert("BOLD"@.len() == 4);
    assert("ITALIC"@.len() == 6);
    assert("PARAGRAPH"@.len() == 9);
    assert("LIST_ITEM"@.len() == 9);
    assert(!opt_is(style_of(a), "PARAGRAPH"@) && !opt_is(style_of(a), "LIST_ITEM"@));
    assert(!opt_is(style_of(b), "PARAGRAPH"@) && !opt_is(style_of(b), "LIST_ITEM"@));
    assert(block_attrs(Seq::<TextAttribute>::empty()) =~= Seq::<Block>::empty());
    assert(block_attrs(seq![a]) =~= Seq::<Block>::empty());
    assert(block_attrs(attrs) =~= Seq::<Block>::empty());
    let blk = Block { start: 0usize, end: n as usize, kind: BlockKind::Paragraph };
    let blocks = blocks_from(Seq::<Block>::empty(), 0, 0, n);
    assert(blocks == seq![blk]);
    // The two inline styles cover the whole text.
    let sa = inline_of(a).unwrap();
    let sb = inline_of(b).unwrap();
    assert(inline_of(a) is Some);
    assert(inline_of(b) is Some);
    assert(inline_styles(Seq::<TextAttribute>::empty()) =~= Seq::<StyleView>::empty());
    assert(Seq::<StyleView>::empty().push(sa) =~= seq![sa]);
    assert(inline_styles(seq![a]) =~= seq![sa]);
    let styles = seq![sa, sb];
    assert(inline_styles(attrs) =~= styles);
    assert(styles.drop_last() =~= seq![sa]);
    assert(clip(sa, 0, n) == Some(sa));
    assert(clip(sb, 0, n) == Some(sb));
    assert(seq![sa].drop_last() =~= Seq::<StyleView>::empty());
    assert(seq![sa].last() == sa);
    assert(seg_styles(Seq::<StyleView>::empty(), 0, n) =~= Seq::<StyleView>::empty());
    assert(seg_styles(seq![sa], 0, n) =~= seq![sa]);
    assert(seg_styles(styles, 0, n) =~= styles);
    // The only boundaries are the two ends.
    assert forall|p: nat| 0 < p < n implies !#[trigger] touches(styles, p) by {
        assert(touches(seq![sa], p) == (sa.start == p || sa.end == p || touches(
            Seq::<StyleView>::empty(),
            p,
        )));
    }
    lemma_boundaries_inner(styles, n, n);
    assert(is_boundary(styles, 0, n, n));
    let bs = boundaries_below(styles, 0, n, n + 1);
    assert(bs =~= seq![0nat, n]);
    // One piece over the whole text, under both styles.
    let k = active(styles, 0, n);
    assert(active(Seq::<StyleView>::empty(), 0, n) =~= Seq::<StyleKindView>::empty());
    assert(Seq::<StyleKindView>::empty().push(sa.kind) =~= seq![sa.kind]);
    assert(active(seq![sa], 0, n) =~= seq![sa.kind]);
    assert(k =~= seq![sa.kind, sb.kind]);
    assert(has_bold(k)) by {
        if sa.kind is Bold {
            assert(k[0] is Bold);
        } else {
            assert(k[1] is Bold);
        }
    }
    assert(has_italic(k)) by {
        if sa.kind is Italic {
            assert(k[0] is Italic);
        } else {
            assert(k[1] is Italic);
        }
    }
    assert(seq![sa.kind].drop_last() =~= Seq::<StyleKindView>::empty());
    assert(first_link(Seq::<StyleKindView>::empty()) is None);
    assert(first_link(seq![sa.kind]) is None);
    assert(k.drop_last() =~= seq![sa.kind]);
    assert(first_link(k) is None);
    let te = trim_end(text);
    lemma_trim_end_split(text);
    assert(text.subrange(0, n as int) =~= text);
    let stars = seq!['*', '*', '*'];
    let inner = stars + te + stars;
    assert(styled(te, k) == inner);
    let ws = text.subrange(te.len() as int, n as int);
    assert(piece(text, styles, 0, n, 0, n) == inner + ws);
    assert(pieces(text, styles, 0, n, bs, 1) == Seq::<char>::empty());
    assert(pieces(text, styles, 0, n, bs, 0) =~= inner + ws);
    assert(format_inline_spec(text, styles, 0, n) == inner + ws);
    // Trimming keeps the asterisks and drops the trailing white space.
    assert(inner.last() == '*');
    lemma_trim_end_append_ws(inner, ws);
    assert((inner + ws)[0] == '*');
    assert(trim_start(inner + ws) == inner + ws);
    assert(block_text(text, styles, blk) == inner);
    assert(inner.len() > 0);
    let empty = Seq::<Seq<char>>::empty();
    assert(render_from(text, styles, blocks, 1, seq![inner], empty) == seq![inner]);
    assert(flush(empty, empty).push(inner) =~= seq![inner]);
    assert(render_from(text, styles, blocks, 0, empty, empty) == seq![inner]);
    assert(join(seq![inner], seq!['\n', '\n']) == inner);
}

/// A text under one BOLD attribute over all of it becomes "**", the text
/// without its trailing white space, and "**"; under one ITALIC attribute,
/// the same between single asterisks.
pub proof fn lemma_single_style_text(text: Seq<char>, a: TextAttribute)
    requires
        0 < text.len() <= usize::MAX,
        trim_end(text).len() > 0,
        whole_style(a, text.len(), "BOLD"@) || whole_style(a, text.len(), "ITALIC"@),
    ensures
        whole_style(a, text.len(), "BOLD"@) ==> format_text_spec(text, seq![a]) == seq!['*', '*']
            + trim_end(text) + seq!['*', '*'],
        whole_style(a, text.len(), "ITALIC"@) ==> format_text_spec(text, seq![a]) == seq!['*']
            + trim_end(text) + seq!['*'],
{
    reveal_strlit("BOLD");
    reveal_strlit("ITALIC");
    reveal_strlit("PARAGRAPH");
    reveal_strlit("LIST_ITEM");
    let n = text.len();
    let attrs = seq![a];
    assert(valid_attr(a, n));
    assert(attrs.last() == a);
    assert(attrs.drop_last() =~= Seq::<TextAttribute>::empty());
    assert(valid_attrs(Seq::<TextAttribute>::empty(), n) =~= Seq::<TextAttribute>::empty());
    assert(Seq::<TextAttribute>::empty().push(a) =~= attrs);
    assert(valid_attrs(attrs, n) =~= attrs);
    assert(sort_attrs(Seq::<TextAttribute>::empty()) =~= Seq::<TextAttribute>::empty());
    assert(insert_sorted(Seq::<TextAttribute>::empty(), a) =~= attrs);
    assert(sort_attrs(attrs) =~= attrs);
    assert("BOLD"@.len() == 4);
    assert("ITALIC"@.len() == 6);
    assert("PARAGRAPH"@.len() == 9);
    assert("LIST_ITEM"@.len() == 9);
    assert(!opt_is(style_of(a), "PARAGRAPH"@) && !opt_is(style_of(a), "LIST_ITEM"@));
    assert(block_attrs(Seq::<TextAttribute>::empty()) =~= Seq::<Block>::empty());
    assert(block_attrs(attrs) =~= Seq::<Block>::empty());
    let blk = Block { start: 0usize, end: n as usize, kind: BlockKind::Paragraph };
    let blocks = blocks_from(Seq::<Block>::empty(), 0, 0, n);
    assert(blocks == seq![blk]);
    let sa = inline_of(a).unwrap();
    assert(inline_of(a) is Some);
    assert(inline_styles(Seq::<TextAttribute>::empty()) =~= Seq::<StyleView>::empty());
    assert(Seq::<StyleView>::empty().push(sa) =~= seq![sa]);
    let styles = seq![sa];
    assert(inline_styles(attrs) =~= styles);
    assert(clip(sa, 0, n) == Some(sa));
    assert(styles.drop_last() =~= Seq::<StyleView>::empty());
    assert(styles.last() == sa);
    assert(seg_styles(Seq::<StyleView>::empty(), 0, n) =~= Seq::<StyleView>::empty());
    assert(seg_styles(styles, 0, n) =~= styles);
    assert forall|p: nat| 0 < p < n implies !#[trigger] touches(styles, p) by {
        assert(touches(styles, p) == (sa.start == p || sa.end == p || touches(
            Seq::<StyleView>::empty(),
            p,
        )));
    }
    lemma_boundaries_inner(styles, n, n);
    assert(is_boundary(styles, 0, n, n));
    let bs = boundaries_below(styles, 0, n, n + 1);
    assert(bs =~= seq![0nat, n]);
    let k = active(styles, 0, n);
    assert(active(Seq::<StyleView>::empty(), 0, n) =~= Seq::<StyleKindView>::empty());
    assert(Seq::<StyleKindView>::empty().push(sa.kind) =~= seq![sa.kind]);
    assert(k =~= seq![sa.kind]);
    assert(k.drop_last() =~= Seq::<StyleKindView>::empty());
    assert(first_link(Seq::<StyleKindView>::empty()) is None);
    assert(first_link(k) is None);
    if sa.kind is Bold {
        assert(k[0] is Bold);
        assert(has_bold(k));
        assert(!has_italic(k));
    } else {
        assert(k[0] is Italic);
        assert(has_italic(k));
        assert(!has_bold(k));
    }
    let m = marks(has_bold(k), has_italic(k));
    assert(m.len() > 0 && m.last() == '*' && m[0] == '*');
    let te = trim_end(text);
    lemma_trim_end_split(text);
    assert(text.subrange(0, n as int) =~= text);
    let inner = m + te + m;
    assert(styled(te, k) == inner);
    let ws = text.subrange(te.len() as int, n as int);
    assert(piece(text, styles, 0, n, 0, n) == inner + ws);
    assert(pieces(text, styles, 0, n, bs, 1) == Seq::<char>::empty());
    assert(pieces(text, styles, 0, n, bs, 0) =~= inner + ws);
    assert(format_inline_spec(text, styles, 0, n) == inner + ws);
    assert(inner.last() == '*');
    lemma_trim_end_append_ws(inner, ws);
    assert((inner + ws)[0] == '*');
    assert(trim_start(inner + ws) == inner + ws);
    assert(block_text(text, styles, blk) == inner);
    let empty = Seq::<Seq<char>>::empty();
    assert(render_from(text, styles, blocks, 1, seq![inner], empty) == seq![inner]);
    assert(flush(empty, empty).push(inner) =~= seq![inner]);
    assert(render_from(text, styles, blocks, 0, empty, empty) == seq![inner]);
    assert(join(seq![inner], seq!['\n', '\n']) == inner);
    assert(format_text_spec(text, attrs) == inner);
    if whole_style(a, n, "BOLD"@) {
        assert(sa.kind is Bold);
        assert(m =~= seq!['*', '*']);
    }
    if whole_style(a, n, "ITALIC"@) {
        assert(sa.kind is Italic);
        assert(m =~= seq!['*']);
    }
}

/// Below `p <= n`, the only boundary of styles that touch no inner point
/// of `0 .. n` is 0.
proof fn lemma_boundaries_inner(v: Seq<StyleView>, n: nat, p: nat)
    requires
        0 < p <= n,
        forall|q: nat| 0 < q < n ==> !#[trigger] touches(v, q),
    ensures
        boundaries_below(v, 0, n, p) =~= seq![0nat],
    decreases p,
{
    if p > 1 {
        lemma_boundaries_inner(v, n, (p - 1) as nat);
        assert(!touches(v, (p - 1) as nat));
    } else {
        assert(boundaries_below(v, 0, n, 0) =~= Seq::<nat>::empty());
    }
}

/// Markdown of a LinkedIn text view model.
pub fn format_text_view_model(tv: &TextViewModel) -> (r: String)
    ensures
        r@ == format_text_spec(tv.text@, tv.attributes@),
{
    string_of(&format_text(tv.text.as_str(), &tv.attributes))
}

/// Markdown of one section: bold header, blank line, body; nothing when
/// there is neither header nor body text.
pub open spec fn section_part(s: DescriptionSection) -> Option<Seq<char>> {
    let body = format_text_spec(s.body.text@, s.body.attributes@);
    match s.header {
        Some(h) => Some(seq!['*', '*'] + trim(h.text@) + seq!['*', '*', '\n', '\n'] + body),
        None => if body.len() == 0 {
            None
        } else {
            Some(body)
        },
    }
}

pub open spec fn section_parts(s: Seq<DescriptionSection>) -> Seq<Seq<char>>
    decreases s.len(),
{
    if s.len() == 0 {
        Seq::empty()
    } else {
        match section_part(s.last()) {
            Some(p) => section_parts(s.drop_last()).push(p),
            None => section_parts(s.drop_last()),
        }
    }
}

/// The sections' Markdown separated by horizontal rules.
pub open spec fn sections_markdown(s: Seq<DescriptionSection>) -> Seq<char> {
    join(section_parts(s), seq!['\n', '\n', '-', '-', '-', '\n', '\n'])
}

pub fn description_sections_to_markdown(sections: &[DescriptionSection]) -> (r: String)
    ensures
        r@ == sections_markdown(sections@),
{
    let mut parts: Vec<Vec<char>> = Vec::new();
    let mut i: usize = 0;
    while i < sections.len()
        invariant
            i <= sections.len(),
            vecs_view(parts@) == section_parts(sections@.subrange(0, i as int)),
        decreases sections.len() - i,
    {
        let sec = &sections[i];
        proof {
            assert(sections@.subrange(0, i + 1).drop_last() =~= sections@.subrange(0, i as int));
        }
        let body = format_text(sec.body.text.as_str(), &sec.body.attributes);
        let ghost p0 = parts@;
        match &sec.header {
            Some(h) => {
                let mut part: Vec<char> = vec!['*', '*'];
                let t = trim_vec(&chars_of(h.text.as_str()));
                push_all(&mut part, &t);
                let close = vec!['*', '*', '\n', '\n'];
                push_all(&mut part, &close);
                push_all(&mut part, &body);
                assert(part@ =~= seq!['*', '*'] + trim(h.text@) + seq!['*', '*', '\n', '\n']
                    + body@);
                parts.push(part);
                assert(vecs_view(parts@) =~= vecs_view(p0).push(part@));
            },
            None => {
                if body.len() > 0 {
                    parts.push(body);
                    assert(vecs_view(parts@) =~= vecs_view(p0).push(body@));
                }
            },
        }
        i = i + 1;
    }
    proof {
        assert(sections@.subrange(0, i as int) =~= sections@);
    }
    let sep = vec!['\n', '\n', '-', '-', '-', '\n', '\n'];
    assert(sep@ =~= seq!['\n', '\n', '-', '-', '-', '\n', '\n']);
    string_of(&join_vecs(&parts, &sep))
}

} // verus!
