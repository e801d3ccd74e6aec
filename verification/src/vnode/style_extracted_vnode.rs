//! The style extractor: inline style text becomes a class, and each
//! distinct text one rule of the remote style sheet.

use vstd::prelude::*;
use vstd::string::StringExecFns;
use crate::ident::{draw_unused, hyphenated, uuid_text};
use crate::vnode::command::{style_patches, StyleDifferenceCommand, StylePatch};
use crate::vnode::handler::BundledEventHandler;
use crate::vnode::message_handled_vnode::{lemma_outlines, MessageHandledVNode};
use crate::vnode::names::{firsts, lemma_firsts};
use crate::vnode::{text_of, Outline};
use crate::window::Message;
use lightningcss::stylesheet::{MinifyOptions, ParserOptions, PrinterOptions, StyleSheet};
use lightningcss::targets::Browsers;

verus! {

/// A tree whose inline styles have become classes.
#[verifier::reject_recursive_types(T)]
pub enum StyleExtractedVNode<T: Message> {
    Text { text: String },
    Element {
        tag: String,
        class: Vec<String>,
        props: Vec<String>,
        event: BundledEventHandler<T>,
        children: Vec<StyleExtractedVNode<T>>,
    },
    Portal { children: Vec<StyleExtractedVNode<T>> },
}

impl<T: Message> View for StyleExtractedVNode<T> {
    type V = Outline<T>;

    open spec fn view(&self) -> Outline<T> {
        extracted_one(*self)
    }
}

/// The mathematical content of a style-extracted tree.
pub open spec fn extracted_one<T: Message>(node: StyleExtractedVNode<T>) -> Outline<T>
    decreases node,
{
    match node {
        StyleExtractedVNode::Text { text } => Outline::Text { text: text@ },
        StyleExtractedVNode::Element { tag, class, props, event, children } => Outline::Element {
            tag: tag@,
            class: class.deep_view(),
            props: props.deep_view(),
            event: event@,
            children: extracted(children@),
            style: None,
        },
        StyleExtractedVNode::Portal { children } => Outline::Portal { children: extracted(children@) },
    }
}

/// The mathematical content of a list of style-extracted trees.
pub open spec fn extracted<T: Message>(nodes: Seq<StyleExtractedVNode<T>>) -> Seq<Outline<T>>
    decreases nodes,
{
    if nodes.len() == 0 {
        Seq::empty()
    } else {
        extracted(nodes.drop_last()).push(extracted_one(nodes.last()))
    }
}

/// The content of a list of trees is the list of their contents.
pub proof fn lemma_extracted<T: Message>(nodes: Seq<StyleExtractedVNode<T>>)
    ensures
        extracted(nodes).len() == nodes.len(),
        forall|i: int| 0 <= i < nodes.len() ==> (#[trigger] extracted(nodes)[i]) == nodes[i]@,
    decreases nodes.len(),
{
    if nodes.len() > 0 {
        lemma_extracted(nodes.drop_last());
    }
}

/// The content of two lists joined is their contents joined.
pub proof fn lemma_extracted_concat<T: Message>(
    a: Seq<StyleExtractedVNode<T>>,
    b: Seq<StyleExtractedVNode<T>>,
)
    ensures
        extracted(a + b) == extracted(a) + extracted(b),
{
    lemma_extracted(a);
    lemma_extracted(b);
    lemma_extracted(a + b);
    assert(extracted(a + b) =~= extracted(a) + extracted(b));
}


/// The browser version that rules are written for: Chrome 108.
pub const CHROME_TARGET: u32 = 108 << 16;

/// The minified text that the CSS engine makes of the style sheet `source`
/// for the browser `chrome`, or `None` where it refuses the sheet.
pub uninterp spec fn minified_css(source: Seq<char>, chrome: u32) -> Option<Seq<char>>;

/// Parses `source` with `lightningcss::stylesheet::StyleSheet::parse`
/// (nesting allowed), minifies the sheet with `StyleSheet::minify` and
/// prints it minified with `StyleSheet::to_css` for the Chrome version
/// `chrome`. The printed text depends on the two arguments alone and is
/// named, not described; `None` stands for an error of any of the three
/// calls.
#[verifier::external_body]
fn minify_css(source: &str, chrome: u32) -> (css: Option<String>)
    ensures
        css matches Some(text) ==> minified_css(source@, chrome) == Some(text@),
        css is None ==> minified_css(source@, chrome) is None,
{
    let options = ParserOptions { nesting: true, ..ParserOptions::default() };
    let mut sheet = StyleSheet::parse(source, options).ok()?;
    sheet.minify(MinifyOptions::default()).ok()?;
    let targets = Browsers { chrome: Some(chrome), ..Browsers::default() };
    let printer = PrinterOptions { minify: true, targets: Some(targets), ..PrinterOptions::default() };
    Some(sheet.to_css(printer).ok()?.code)
}

/// The class that stands for the style with the identifier `id`.
pub open spec fn class_name(id: u128) -> Seq<char> {
    "style-"@ + hyphenated(id)
}

/// The style sheet of one rule that gives the class of `id` the
/// declarations `text`.
pub open spec fn rule_source(id: u128, text: Seq<char>) -> Seq<char> {
    "."@ + class_name(id) + " { "@ + text + " }"@
}

/// The class that stands for the style with the identifier `id`.
pub fn style_class(id: u128) -> (name: String)
    ensures
        name@ == class_name(id),
{
    let mut name = String::from_str("style-");
    name.append(uuid_text(id).as_str());
    name
}

/// The minified rule for the style `text` under the identifier `id`, or
/// `None` where the CSS engine refuses it.
pub fn compile_rule(id: u128, text: &String) -> (css: Option<String>)
    ensures
        css matches Some(rule) ==> minified_css(rule_source(id, text@), CHROME_TARGET) == Some(
            rule@,
        ),
        css is None ==> minified_css(rule_source(id, text@), CHROME_TARGET) is None,
{
    let mut source = String::from_str(".");
    source.append(style_class(id).as_str());
    source.append(" { ");
    source.append(text.as_str());
    source.append(" }");
    minify_css(source.as_str(), CHROME_TARGET)
}

/// One registered style: its text and the identifier it was given.
#[derive(Clone, Debug, PartialEq, Eq)]
pub struct StyleEntry {
    pub text: String,
    pub id: u128,
}

/// The mathematical content of a [`StyleEntry`].
pub ghost struct StyleRule {
    pub text: Seq<char>,
    pub id: u128,
}

impl View for StyleEntry {
    type V = StyleRule;

    open spec fn view(&self) -> StyleRule {
        StyleRule { text: self.text@, id: self.id }
    }
}

/// The content of a list of entries.
pub open spec fn rules(entries: Seq<StyleEntry>) -> Seq<StyleRule> {
    entries.map_values(|entry: StyleEntry| entry@)
}

/// The style texts of a list of rules.
pub open spec fn texts(rules: Seq<StyleRule>) -> Seq<Seq<char>> {
    rules.map_values(|rule: StyleRule| rule.text)
}

/// The identifiers of a list of rules.
pub open spec fn ids(rules: Seq<StyleRule>) -> Seq<u128> {
    rules.map_values(|rule: StyleRule| rule.id)
}

/// Texts and identifiers stand one to one: no text twice, no identifier
/// twice.
pub open spec fn sound(rules: Seq<StyleRule>) -> bool {
    texts(rules).no_duplicates() && ids(rules).no_duplicates()
}

/// The identifier that `rules` gives the style `text`.
pub open spec fn id_for(rules: Seq<StyleRule>, text: Seq<char>) -> u128 {
    choose|id: u128| rules.contains(StyleRule { text, id })
}

/// The test "the tree uses this rule's text".
pub open spec fn used_by(used: Seq<Seq<char>>) -> spec_fn(StyleRule) -> bool {
    |rule: StyleRule| used.contains(rule.text)
}

/// The test "the tree does not use this rule's text".
pub open spec fn unused_by(used: Seq<Seq<char>>) -> spec_fn(StyleRule) -> bool {
    |rule: StyleRule| !used.contains(rule.text)
}

/// The command that removes the rule of a style.
pub open spec fn removal(rule: StyleRule) -> StylePatch {
    StylePatch::RemoveStyle { class_name: class_name(rule.id) }
}

/// The command that adds the rule of a style.
pub open spec fn addition(rule: StyleRule) -> StylePatch {
    StylePatch::AddStyle {
        class_name: class_name(rule.id),
        value: minified_css(rule_source(rule.id, rule.text), CHROME_TARGET).unwrap(),
    }
}

/// The commands that remove the rules of `rules`, one by one.
pub open spec fn removals(rules: Seq<StyleRule>) -> Seq<StylePatch> {
    rules.map_values(|rule: StyleRule| removal(rule))
}

/// The commands that add the rules of `rules`, one by one.
pub open spec fn additions(rules: Seq<StyleRule>) -> Seq<StylePatch> {
    rules.map_values(|rule: StyleRule| addition(rule))
}

/// The inline style texts of a tree, in the order of a depth-first walk
/// from the left, each as often as it occurs.
pub open spec fn style_texts_one<T: Message>(node: Outline<T>) -> Seq<Seq<char>>
    decreases node,
{
    match node {
        Outline::Text { .. } => Seq::empty(),
        Outline::Element { children, style, .. } => match style {
            Some(text) => seq![text] + style_texts(children),
            None => style_texts(children),
        },
        Outline::Portal { children } => style_texts(children),
    }
}

/// The inline style texts of a list of trees.
pub open spec fn style_texts<T: Message>(nodes: Seq<Outline<T>>) -> Seq<Seq<char>>
    decreases nodes,
{
    if nodes.len() == 0 {
        Seq::empty()
    } else {
        style_texts(nodes.drop_last()) + style_texts_one(nodes.last())
    }
}

/// The tree with each inline style replaced by the class that `rules`
/// gives its text.
pub open spec fn restyle_one<T: Message>(node: Outline<T>, rules: Seq<StyleRule>) -> Outline<T>
    decreases node,
{
    match node {
        Outline::Text { .. } => node,
        Outline::Element { tag, class, props, event, children, style } => Outline::Element {
            tag,
            class: match style {
                Some(text) => class.push(class_name(id_for(rules, text))),
                None => class,
            },
            props,
            event,
            children: restyle_all(children, rules),
            style: None,
        },
        Outline::Portal { children } => Outline::Portal { children: restyle_all(children, rules) },
    }
}

/// The trees with each inline style replaced by its class.
pub open spec fn restyle_all<T: Message>(nodes: Seq<Outline<T>>, rules: Seq<StyleRule>) -> Seq<
    Outline<T>,
>
    decreases nodes,
{
    if nodes.len() == 0 {
        Seq::empty()
    } else {
        restyle_all(nodes.drop_last(), rules).push(restyle_one(nodes.last(), rules))
    }
}

/// In sound rules the identifier of a text is that of the rule that holds
/// the text.
pub proof fn lemma_id_for(rules: Seq<StyleRule>, rule: StyleRule)
    requires
        sound(rules),
        rules.contains(rule),
    ensures
        id_for(rules, rule.text) == rule.id,
{
    let id = id_for(rules, rule.text);
    let found = StyleRule { text: rule.text, id };
    assert(rules.contains(StyleRule { text: rule.text, id: rule.id }));
    let k = choose|k: int| 0 <= k < rules.len() && rules[k] == rule;
    let m = choose|m: int| 0 <= m < rules.len() && rules[m] == found;
    assert(texts(rules)[k] == rule.text);
    assert(texts(rules)[m] == rule.text);
}

/// Rules that agree on every style text of a tree restyle it alike.
pub proof fn lemma_restyle_agrees<T: Message>(
    node: Outline<T>,
    a: Seq<StyleRule>,
    b: Seq<StyleRule>,
)
    requires
        forall|text: Seq<char>| #[trigger]
            style_texts_one(node).contains(text) ==> id_for(a, text) == id_for(b, text),
    ensures
        restyle_one(node, a) == restyle_one(node, b),
    decreases node,
{
    match node {
        Outline::Text { .. } => {},
        Outline::Element { children, style, .. } => {
            let own = style_texts_one(node);
            assert forall|text: Seq<char>| #[trigger]
                style_texts(children).contains(text) implies id_for(a, text) == id_for(b, text) by {
                let k = choose|k: int|
                    0 <= k < style_texts(children).len() && style_texts(children)[k] == text;
                if style is Some {
                    assert(own[k + 1] == text);
                } else {
                    assert(own[k] == text);
                }
                assert(own.contains(text));
            }
            lemma_restyle_all_agrees(children, a, b);
            if style is Some {
                assert(own[0] == style->0);
                assert(own.contains(style->0));
            }
        },
        Outline::Portal { children } => {
            assert(style_texts_one(node) == style_texts(children));
            assert forall|text: Seq<char>| #[trigger]
                style_texts(children).contains(text) implies id_for(a, text) == id_for(b, text) by {
                assert(style_texts_one(node).contains(text));
            }
            lemma_restyle_all_agrees(children, a, b);
        },
    }
}

/// Rules that agree on every style text of a list of trees restyle it
/// alike.
pub proof fn lemma_restyle_all_agrees<T: Message>(
    nodes: Seq<Outline<T>>,
    a: Seq<StyleRule>,
    b: Seq<StyleRule>,
)
    requires
        forall|text: Seq<char>| #[trigger]
            style_texts(nodes).contains(text) ==> id_for(a, text) == id_for(b, text),
    ensures
        restyle_all(nodes, a) == restyle_all(nodes, b),
    decreases nodes,
{
    if nodes.len() > 0 {
        let front = style_texts(nodes.drop_last());
        let tail = style_texts_one(nodes.last());
        assert forall|text: Seq<char>| #[trigger] front.contains(text) implies id_for(a, text)
            == id_for(b, text) by {
            let k = choose|k: int| 0 <= k < front.len() && front[k] == text;
            assert((front + tail)[k] == text);
            assert(style_texts(nodes).contains(text));
        }
        assert forall|text: Seq<char>| #[trigger] tail.contains(text) implies id_for(a, text)
            == id_for(b, text) by {
            let k = choose|k: int| 0 <= k < tail.len() && tail[k] == text;
            assert((front + tail)[front.len() + k] == text);
            assert(style_texts(nodes).contains(text));
        }
        lemma_restyle_all_agrees(nodes.drop_last(), a, b);
        lemma_restyle_agrees(nodes.last(), a, b);
    }
}

/// Sound rules give each text that a part of them holds the identifier
/// that the part gives it.
pub proof fn lemma_id_for_within(part: Seq<StyleRule>, whole: Seq<StyleRule>, text: Seq<char>)
    requires
        sound(whole),
        sound(part),
        forall|rule: StyleRule| #[trigger] part.contains(rule) ==> whole.contains(rule),
        texts(part).contains(text),
    ensures
        id_for(part, text) == id_for(whole, text),
{
    let k = choose|k: int| 0 <= k < texts(part).len() && texts(part)[k] == text;
    let rule = part[k];
    assert(part.contains(rule));
    lemma_id_for(part, rule);
    lemma_id_for(whole, rule);
}

/// The registry of styles: which texts the remote style sheet holds a rule
/// for, and under which identifier.
pub struct StyleRegistry {
    entries: Vec<StyleEntry>,
}

impl View for StyleRegistry {
    type V = Seq<StyleRule>;

    closed spec fn view(&self) -> Seq<StyleRule> {
        rules(self.entries@)
    }
}

/// A style text that the CSS engine refused, with the identifier under
/// which it was tried.
#[derive(Clone, Debug, PartialEq, Eq)]
pub struct StyleError {
    pub text: String,
    pub id: u128,
}

impl StyleError {
    /// The error in words.
    pub fn message(&self) -> (text: String)
        ensures
            text@ == "invalid inline style: "@ + self.text@,
    {
        let mut text = String::from_str("invalid inline style: ");
        text.append(self.text.as_str());
        text
    }
}

impl StyleRegistry {
    /// Whether texts and identifiers stand one to one.
    pub open spec fn wf(self) -> bool {
        sound(self@)
    }

    /// A registry without styles.
    pub fn new() -> (registry: Self)
        ensures
            registry@ == Seq::<StyleRule>::empty(),
            registry.wf(),
    {
        let registry = StyleRegistry { entries: Vec::new() };
        assert(registry@ =~= Seq::empty());
        assert(texts(registry@) =~= Seq::empty());
        assert(ids(registry@) =~= Seq::empty());
        registry
    }

    /// How many styles are registered.
    pub fn len(&self) -> (n: usize)
        ensures
            n == self@.len(),
    {
        self.entries.len()
    }

    /// The registered styles, in the order of their registration.
    pub fn entries(&self) -> (entries: &Vec<StyleEntry>)
        ensures
            rules(entries@) == self@,
    {
        &self.entries
    }
}

/// Where `text` stands in `entries`.
fn find_text(entries: &Vec<StyleEntry>, text: &String) -> (place: Option<usize>)
    ensures
        match place {
            Some(j) => j < entries.len() && entries[j as int].text@ == text@,
            None => !texts(rules(entries@)).contains(text@),
        },
{
    let mut i: usize = 0;
    while i < entries.len()
        invariant
            i <= entries.len(),
            forall|j: int| 0 <= j < i ==> entries[j].text@ != text@,
        decreases entries.len() - i,
    {
        if entries[i].text == *text {
            return Some(i);
        }
        i = i + 1;
    }
    proof {
        let all = texts(rules(entries@));
        if all.contains(text@) {
            let k = choose|k: int| 0 <= k < all.len() && all[k] == text@;
            assert(entries[k].text@ == text@);
        }
    }
    None
}

/// What holds between the registry, the styles found new so far, and the
/// style texts `visited` so far.
pub open spec fn walk_inv(
    registered: Seq<StyleRule>,
    used: Seq<bool>,
    pending: Seq<StyleRule>,
    taken: Seq<u128>,
    visited: Seq<Seq<char>>,
) -> bool {
    &&& sound(registered + pending)
    &&& taken == ids(registered + pending)
    &&& texts(pending) == firsts(texts(registered), visited)
    &&& used.len() == registered.len()
    &&& forall|j: int|
        0 <= j < registered.len() ==> (#[trigger] used[j] <==> visited.contains(registered[j].text))
}

/// Every visited text has a rule, registered or pending.
proof fn lemma_walk_covers(
    registered: Seq<StyleRule>,
    pending: Seq<StyleRule>,
    visited: Seq<Seq<char>>,
    text: Seq<char>,
)
    requires
        texts(pending) == firsts(texts(registered), visited),
        visited.contains(text),
    ensures
        texts(registered + pending).contains(text),
{
    lemma_firsts(texts(registered), visited);
    let all = texts(registered + pending);
    if texts(registered).contains(text) {
        let k = choose|k: int| 0 <= k < registered.len() && texts(registered)[k] == text;
        assert(all[k] == text);
    } else {
        assert(firsts(texts(registered), visited).contains(text));
        let k = choose|k: int| 0 <= k < pending.len() && texts(pending)[k] == text;
        assert(all[registered.len() + k] == text);
    }
}

/// A part of sound rules, taken in order, is sound, and sound rules give
/// each text of the part the identifier that the part gives it.
proof fn lemma_grown(
    registered: Seq<StyleRule>,
    before: Seq<StyleRule>,
    after: Seq<StyleRule>,
    text: Seq<char>,
)
    requires
        sound(registered + after),
        before.is_prefix_of(after),
        texts(registered + before).contains(text),
    ensures
        sound(registered + before),
        id_for(registered + before, text) == id_for(registered + after, text),
{
    let small = registered + before;
    let large = registered + after;
    assert(small.is_prefix_of(large));
    assert forall|i: int, j: int| 0 <= i < small.len() && 0 <= j < small.len() && i != j implies ({
        &&& texts(small)[i] != texts(small)[j]
        &&& ids(small)[i] != ids(small)[j]
    }) by {
        assert(texts(large)[i] == texts(small)[i]);
        assert(texts(large)[j] == texts(small)[j]);
        assert(ids(large)[i] == ids(small)[i]);
        assert(ids(large)[j] == ids(small)[j]);
    }
    assert forall|rule: StyleRule| #[trigger] small.contains(rule) implies large.contains(rule) by {
        let k = choose|k: int| 0 <= k < small.len() && small[k] == rule;
        assert(large[k] == rule);
    }
    lemma_id_for_within(small, large, text);
}

impl<T: Message> StyleExtractedVNode<T> {
    /// Replaces every inline style of `vnode` by a class and brings
    /// `styles` up to date. A text that `styles` holds keeps its
    /// identifier; each new text gets one new identifier, once, however
    /// often the tree holds it. The commands remove the rules of the
    /// texts that the tree no longer holds, in their order in `styles`,
    /// and then add the rules of the new texts, in the order in which a
    /// depth-first walk finds them. Where the CSS engine refuses a new
    /// text, nothing is changed and the text comes back as the error.
    pub fn extract(vnode: MessageHandledVNode<T>, styles: &mut StyleRegistry) -> (outcome: Result<
        (Self, Vec<StyleDifferenceCommand>),
        StyleError,
    >)
        requires
            old(styles).wf(),
        ensures
            final(styles).wf(),
            match outcome {
                Ok((tree, commands)) => {
                    let used = style_texts_one(vnode@);
                    let stay = old(styles)@.filter(used_by(used));
                    let fresh = final(styles)@.skip(stay.len() as int);
                    &&& final(styles)@ == stay + fresh
                    &&& texts(fresh) == firsts(texts(old(styles)@), used)
                    &&& tree@ == restyle_one(vnode@, final(styles)@)
                    &&& forall|i: int|
                        0 <= i < fresh.len() ==> minified_css(
                            rule_source((#[trigger] fresh[i]).id, fresh[i].text),
                            CHROME_TARGET,
                        ) is Some
                    &&& style_patches(commands@) == removals(
                        old(styles)@.filter(unused_by(used)),
                    ) + additions(fresh)
                },
                Err(error) => {
                    &&& final(styles)@ == old(styles)@
                    &&& style_texts_one(vnode@).contains(error.text@)
                    &&& !texts(old(styles)@).contains(error.text@)
                    &&& minified_css(rule_source(error.id, error.text@), CHROME_TARGET) is None
                },
            },
            (forall|text: Seq<char>, id: u128|
                style_texts_one(vnode@).contains(text) && !texts(old(styles)@).contains(text)
                    ==> (#[trigger] minified_css(rule_source(id, text), CHROME_TARGET)) is Some)
                ==> outcome is Ok,
    {
        let ghost registered = styles@;
        let ghost used_texts = style_texts_one(vnode@);
        let mut used: Vec<bool> = Vec::new();
        let mut taken: Vec<u128> = Vec::new();
        let mut i: usize = 0;
        while i < styles.entries.len()
            invariant
                i <= styles.entries.len(),
                registered == rules(styles.entries@),
                used.len() == i,
                taken.len() == i,
                forall|j: int| 0 <= j < i ==> !(#[trigger] used[j]),
                forall|j: int| 0 <= j < i ==> (#[trigger] taken[j]) == registered[j].id,
            decreases styles.entries.len() - i,
        {
            used.push(false);
            taken.push(styles.entries[i].id);
            i = i + 1;
        }
        let mut pending: Vec<StyleEntry> = Vec::new();
        proof {
            assert(rules(pending@) =~= Seq::empty());
            assert(registered + rules(pending@) =~= registered);
            assert(taken@ =~= ids(registered));
            assert(texts(rules(pending@)) =~= Seq::empty());
            let none = Seq::<Seq<char>>::empty();
            assert(none + used_texts =~= used_texts);
        }
        let tree = assign(
            vnode,
            &styles.entries,
            &mut used,
            &mut pending,
            &mut taken,
            Ghost(Seq::empty()),
        );
        let ghost fresh = rules(pending@);
        // Compile the new rules before anything is changed.
        let mut sheets: Vec<String> = Vec::new();
        let mut k: usize = 0;
        while k < pending.len()
            invariant
                k <= pending.len(),
                fresh == rules(pending@),
                sheets.len() == k,
                registered == styles@,
                *styles == *old(styles),
                styles.wf(),
                used_texts == style_texts_one(vnode@),
                texts(fresh) == firsts(texts(registered), used_texts),
                forall|j: int|
                    0 <= j < k ==> minified_css(
                        rule_source(fresh[j].id, fresh[j].text),
                        CHROME_TARGET,
                    ) == Some((#[trigger] sheets[j])@),
            decreases pending.len() - k,
        {
            match compile_rule(pending[k].id, &pending[k].text) {
                Some(sheet) => {
                    sheets.push(sheet);
                },
                None => {
                    proof {
                        lemma_firsts(texts(registered), used_texts);
                        assert(texts(fresh)[k as int] == pending[k as int].text@);
                        let refused = pending[k as int].text@;
                        assert(firsts(texts(registered), used_texts).contains(refused));
                        assert(used_texts.contains(refused) && !texts(registered).contains(refused));
                        assert(fresh[k as int].text == refused);
                        assert(minified_css(
                            rule_source(pending[k as int].id, refused),
                            CHROME_TARGET,
                        ) is None);
                    }
                    return Err(StyleError { text: pending[k].text.clone(), id: pending[k].id });
                },
            }
            k = k + 1;
        }
        // Part the registered styles into those that stay and those that leave.
        let mut commands: Vec<StyleDifferenceCommand> = Vec::new();
        let mut stay: Vec<StyleEntry> = Vec::new();
        let mut old_entries: Vec<StyleEntry> = Vec::new();
        core::mem::swap(&mut styles.entries, &mut old_entries);
        let ghost keep = used_by(used_texts);
        let ghost leave = unused_by(used_texts);
        proof {
            reveal(Seq::filter);
            assert(registered.take(0) =~= Seq::empty());
            assert(rules(stay@) =~= registered.take(0).filter(keep));
            assert(style_patches(commands@) =~= removals(registered.take(0).filter(leave)));
        }
        let mut at: usize = 0;
        for entry in it: old_entries
            invariant
                at == it.index(),
                registered == rules(old_entries@),
                used.len() == old_entries.len(),
                forall|j: int|
                    0 <= j < registered.len() ==> (#[trigger] used[j] <==> used_texts.contains(
                        registered[j].text,
                    )),
                keep == used_by(used_texts),
                leave == unused_by(used_texts),
                rules(stay@) == registered.take(it.index() as int).filter(keep),
                style_patches(commands@) == removals(
                    registered.take(it.index() as int).filter(leave),
                ),
        {
            let ghost j = it.index() as int;
            let ghost stay_before = rules(stay@);
            let ghost commands_before = style_patches(commands@);
            let ghost rule = entry@;
            proof {
                assert(entry == old_entries[j]);
                assert(registered[j] == rule);
                registered.lemma_take_succ_push(j);
                registered.take(j).lemma_filter_push(rule, keep);
                registered.take(j).lemma_filter_push(rule, leave);
            }
            if used[at] {
                stay.push(entry);
                assert(rules(stay@) =~= stay_before.push(rule));
            } else {
                commands.push(StyleDifferenceCommand::RemoveStyle { class_name: style_class(entry.id) });
                assert(style_patches(commands@) =~= commands_before.push(removal(rule)));
                assert(removals(registered.take(j).filter(leave).push(rule)) =~= removals(
                    registered.take(j).filter(leave),
                ).push(removal(rule)));
            }
            at = at + 1;
        }
        proof {
            assert(registered.take(old_entries.len() as int) =~= registered);
        }
        let ghost kept_rules = rules(stay@);
        let ghost removed = style_patches(commands@);
        // Register the new styles and announce their rules.
        let mut n: usize = 0;
        proof {
            assert(fresh.take(0) =~= Seq::empty());
            assert(rules(stay@) =~= kept_rules + fresh.take(0));
            assert(style_patches(commands@) =~= removed + additions(fresh.take(0)));
        }
        while n < pending.len()
            invariant
                n <= pending.len(),
                fresh == rules(pending@),
                sheets.len() == pending.len(),
                forall|j: int|
                    0 <= j < pending.len() ==> minified_css(
                        rule_source(fresh[j].id, fresh[j].text),
                        CHROME_TARGET,
                    ) == Some((#[trigger] sheets[j])@),
                rules(stay@) == kept_rules + fresh.take(n as int),
                style_patches(commands@) == removed + additions(fresh.take(n as int)),
            decreases pending.len() - n,
        {
            let ghost stay_before = rules(stay@);
            let ghost commands_before = style_patches(commands@);
            let ghost rule = fresh[n as int];
            proof {
                fresh.lemma_take_succ_push(n as int);
                assert(rule == pending[n as int]@);
            }
            let entry = StyleEntry { text: pending[n].text.clone(), id: pending[n].id };
            assert(entry@ == rule);
            commands.push(
                StyleDifferenceCommand::AddStyle {
                    class_name: style_class(entry.id),
                    value: sheets[n].clone(),
                },
            );
            stay.push(entry);
            proof {
                assert(rules(stay@) =~= stay_before.push(rule));
                assert(style_patches(commands@) =~= commands_before.push(addition(rule)));
                assert(additions(fresh.take(n as int).push(rule)) =~= additions(
                    fresh.take(n as int),
                ).push(addition(rule)));
                assert(rules(stay@) =~= kept_rules + fresh.take(n + 1));
                assert(style_patches(commands@) =~= removed + additions(fresh.take(n + 1)));
            }
            n = n + 1;
        }
        styles.entries = stay;
        proof {
            assert(fresh.take(pending.len() as int) =~= fresh);
            let whole = registered + fresh;
            let now = kept_rules + fresh;
            assert(styles@ == now);
            assert(now.skip(kept_rules.len() as int) =~= fresh);
            lemma_sound_part(registered, fresh, keep);
            assert forall|text: Seq<char>| #[trigger]
                style_texts_one(vnode@).contains(text) implies id_for(whole, text) == id_for(
                now,
                text,
            ) by {
                lemma_walk_covers(registered, fresh, used_texts, text);
                lemma_kept_holds(registered, fresh, used_texts, text);
                lemma_part_within(registered, fresh, keep);
                lemma_id_for_within(now, whole, text);
            }
            lemma_restyle_agrees(vnode@, whole, now);
            let none = Seq::<Seq<char>>::empty();
            assert(none + used_texts =~= used_texts);
            assert(tree@ == restyle_one(vnode@, whole));
            assert(kept_rules == registered.filter(keep));
            assert(texts(fresh) == firsts(texts(registered), used_texts));
            assert(styles.wf());
            assert(style_patches(commands@) == removals(registered.filter(leave)) + additions(fresh));
            assert forall|i: int| 0 <= i < fresh.len() implies minified_css(
                rule_source((#[trigger] fresh[i]).id, fresh[i].text),
                CHROME_TARGET,
            ) is Some by {
                assert(sheets[i]@ == sheets[i]@);
            }
        }
        Ok((tree, commands))
    }
}

/// The rules that stay, followed by the new ones, are sound.
proof fn lemma_sound_part(
    registered: Seq<StyleRule>,
    fresh: Seq<StyleRule>,
    keep: spec_fn(StyleRule) -> bool,
)
    requires
        sound(registered + fresh),
    ensures
        sound(registered.filter(keep) + fresh),
{
    let whole = registered + fresh;
    let part = registered.filter(keep) + fresh;
    lemma_filter_places(registered, keep);
    let place = choose|place: Seq<int>| filter_places(registered, keep, place);
    assert forall|i: int, j: int| 0 <= i < part.len() && 0 <= j < part.len() && i != j implies ({
        &&& texts(part)[i] != texts(part)[j]
        &&& ids(part)[i] != ids(part)[j]
    }) by {
        let n = registered.filter(keep).len() as int;
        let a = if i < n { place[i] } else { registered.len() + (i - n) };
        let b = if j < n { place[j] } else { registered.len() + (j - n) };
        assert(whole[a] == part[i]);
        assert(whole[b] == part[j]);
        assert(a != b);
        assert(texts(whole)[a] == texts(part)[i]);
        assert(texts(whole)[b] == texts(part)[j]);
        assert(ids(whole)[a] == ids(part)[i]);
        assert(ids(whole)[b] == ids(part)[j]);
    }
}

/// `place` gives, for each member of the filtered list, where it stood,
/// left to right.
pub open spec fn filter_places<A>(items: Seq<A>, pred: spec_fn(A) -> bool, place: Seq<int>) -> bool {
    &&& place.len() == items.filter(pred).len()
    &&& forall|i: int|
        0 <= i < place.len() ==> 0 <= #[trigger] place[i] < items.len() && items[place[i]]
            == items.filter(pred)[i]
    &&& forall|i: int, j: int| 0 <= i < j < place.len() ==> #[trigger] place[i] < #[trigger] place[j]
}

/// A filter keeps members where they stood relative to each other.
pub proof fn lemma_filter_places<A>(items: Seq<A>, pred: spec_fn(A) -> bool)
    ensures
        exists|place: Seq<int>| filter_places(items, pred, place),
    decreases items.len(),
{
    reveal(Seq::filter);
    if items.len() == 0 {
        assert(filter_places(items, pred, Seq::<int>::empty()));
    } else {
        lemma_filter_places(items.drop_last(), pred);
        let before = choose|place: Seq<int>| filter_places(items.drop_last(), pred, place);
        if pred(items.last()) {
            let place = before.push(items.len() - 1);
            assert(filter_places(items, pred, place));
        } else {
            assert(filter_places(items, pred, before));
        }
    }
}

/// Each rule that stays, and each new one, is among the registered and
/// the new ones.
proof fn lemma_part_within(
    registered: Seq<StyleRule>,
    fresh: Seq<StyleRule>,
    keep: spec_fn(StyleRule) -> bool,
)
    ensures
        forall|rule: StyleRule| #[trigger]
            (registered.filter(keep) + fresh).contains(rule) ==> (registered + fresh).contains(
                rule,
            ),
{
    let part = registered.filter(keep) + fresh;
    let whole = registered + fresh;
    lemma_filter_places(registered, keep);
    let place = choose|place: Seq<int>| filter_places(registered, keep, place);
    assert forall|rule: StyleRule| #[trigger] part.contains(rule) implies whole.contains(rule) by {
        let i = choose|i: int| 0 <= i < part.len() && part[i] == rule;
        let n = registered.filter(keep).len() as int;
        if i < n {
            assert(whole[place[i]] == rule);
        } else {
            assert(whole[registered.len() + (i - n)] == rule);
        }
    }
}

/// A text that the tree uses has a rule among those that stay and the new
/// ones.
proof fn lemma_kept_holds(
    registered: Seq<StyleRule>,
    fresh: Seq<StyleRule>,
    used: Seq<Seq<char>>,
    text: Seq<char>,
)
    requires
        texts(registered + fresh).contains(text),
        used.contains(text),
    ensures
        texts(registered.filter(used_by(used)) + fresh).contains(text),
{
    let whole = registered + fresh;
    let stay = registered.filter(used_by(used));
    let part = stay + fresh;
    let k = choose|k: int| 0 <= k < whole.len() && texts(whole)[k] == text;
    if k < registered.len() {
        let rule = registered[k];
        assert(used_by(used)(rule));
        assert(registered.contains(rule));
        registered.lemma_filter_contains(used_by(used), k);
        let m = choose|m: int| 0 <= m < stay.len() && stay[m] == rule;
        assert(texts(part)[m] == text);
    } else {
        assert(texts(part)[stay.len() + (k - registered.len())] == text);
    }
}

/// Replaces the inline styles of `node` by classes. The styles that the
/// walk finds new join `pending`; of the registered ones it notes in `used`
/// that the tree holds them.
fn assign<T: Message>(
    node: MessageHandledVNode<T>,
    entries: &Vec<StyleEntry>,
    used: &mut Vec<bool>,
    pending: &mut Vec<StyleEntry>,
    taken: &mut Vec<u128>,
    Ghost(visited): Ghost<Seq<Seq<char>>>,
) -> (tree: StyleExtractedVNode<T>)
    requires
        walk_inv(rules(entries@), old(used)@, rules(old(pending)@), old(taken)@, visited),
    ensures
        walk_inv(
            rules(entries@),
            final(used)@,
            rules(final(pending)@),
            final(taken)@,
            visited + style_texts_one(node@),
        ),
        rules(old(pending)@).is_prefix_of(rules(final(pending)@)),
        tree@ == restyle_one(node@, rules(entries@) + rules(final(pending)@)),
    decreases node,
{
    let ghost registered = rules(entries@);
    let ghost shape = node@;
    match node {
        MessageHandledVNode::Text { text } => {
            proof {
                assert(visited + style_texts_one(shape) =~= visited);
            }
            StyleExtractedVNode::Text { text }
        },
        MessageHandledVNode::Element { tag, class, props, event, children, style } => {
            let mut class = class;
            let ghost class_before = class.deep_view();
            let ghost wanted = text_of(style);
            let ghost seen = match wanted {
                Some(text) => visited.push(text),
                None => visited,
            };
            match style {
                Some(text) => {
                    let ghost pending_before = rules(pending@);
                    proof {
                        lemma_firsts(texts(registered), visited);
                        assert(seen.drop_last() =~= visited);
                    }
                    let id = match find_text(entries, &text) {
                        Some(j) => {
                            used.set(j, true);
                            proof {
                                assert(texts(registered)[j as int] == text@);
                                assert(texts(registered).contains(text@));
                                assert forall|m: int| 0 <= m < registered.len() implies (
                                #[trigger] used[m] <==> seen.contains(registered[m].text)) by {
                                    if m != j {
                                        assert(texts(registered + pending_before)[m]
                                            != texts(registered + pending_before)[j as int]);
                                        if seen.contains(registered[m].text) {
                                            let q = choose|q: int|
                                                0 <= q < seen.len() && seen[q]
                                                    == registered[m].text;
                                            assert(visited[q] == registered[m].text);
                                        }
                                        if visited.contains(registered[m].text) {
                                            let q = choose|q: int|
                                                0 <= q < visited.len() && visited[q]
                                                    == registered[m].text;
                                            assert(seen[q] == registered[m].text);
                                        }
                                    } else {
                                        assert(seen[seen.len() - 1] == text@);
                                    }
                                }
                                assert((registered + pending_before)[j as int] == entries[j as int]@);
                                lemma_id_for(registered + pending_before, entries[j as int]@);
                            }
                            entries[j].id
                        },
                        None => {
                            proof {
                                assert forall|m: int| 0 <= m < registered.len() implies (
                                #[trigger] used[m] <==> seen.contains(registered[m].text)) by {
                                    assert(texts(registered)[m] == registered[m].text);
                                    if seen.contains(registered[m].text) {
                                        let q = choose|q: int|
                                            0 <= q < seen.len() && seen[q] == registered[m].text;
                                        assert(visited[q] == registered[m].text);
                                    }
                                    if visited.contains(registered[m].text) {
                                        let q = choose|q: int|
                                            0 <= q < visited.len() && visited[q]
                                                == registered[m].text;
                                        assert(seen[q] == registered[m].text);
                                    }
                                }
                            }
                            match find_text(pending, &text) {
                                Some(p) => {
                                    proof {
                                        assert(texts(pending_before)[p as int] == text@);
                                        assert(texts(pending_before).contains(text@));
                                        assert((registered + pending_before)[registered.len()
                                            + p] == pending[p as int]@);
                                        lemma_id_for(registered + pending_before, pending[p as int]@);
                                    }
                                    pending[p].id
                                },
                                None => {
                                    let id = draw_unused(taken);
                                    let ghost rule = StyleRule { text: text@, id };
                                    pending.push(StyleEntry { text: text.clone(), id });
                                    taken.push(id);
                                    proof {
                                        let grown = registered + rules(pending@);
                                        assert(rules(pending@) =~= pending_before.push(rule));
                                        assert(grown =~= (registered + pending_before).push(rule));
                                        assert(texts(grown) =~= texts(
                                            registered + pending_before,
                                        ).push(text@));
                                        assert(ids(grown) =~= ids(registered + pending_before).push(
                                            id,
                                        ));
                                        assert(texts(rules(pending@)) =~= texts(pending_before).push(
                                            text@,
                                        ));
                                        assert(texts(registered + pending_before) =~= texts(
                                            registered,
                                        ) + texts(pending_before));
                                        assert(!texts(registered + pending_before).contains(text@));
                                        assert(grown[grown.len() - 1] == rule);
                                        lemma_id_for(grown, rule);
                                    }
                                    id
                                },
                            }
                        },
                    };
                    class.push(style_class(id));
                    proof {
                        assert(class.deep_view() =~= class_before.push(class_name(id)));
                    }
                },
                None => {},
            }
            let ghost pending_mid = rules(pending@);
            let lifted_children = assign_all(children, entries, used, pending, taken, Ghost(seen));
            let tree = StyleExtractedVNode::Element {
                tag,
                class,
                props,
                event,
                children: lifted_children,
            };
            proof {
                let grown = registered + rules(pending@);
                assert(visited + style_texts_one(shape) =~= seen + style_texts(shape->Element_children));
                if wanted is Some {
                    let text = wanted->0;
                    assert(seen[seen.len() - 1] == text);
                    lemma_walk_covers(registered, pending_mid, seen, text);
                    lemma_grown(registered, pending_mid, rules(pending@), text);
                }
                assert(tree@ == restyle_one(shape, grown));
            }
            tree
        },
        MessageHandledVNode::Portal { children } => {
            let lifted_children = assign_all(children, entries, used, pending, taken, Ghost(visited));
            StyleExtractedVNode::Portal { children: lifted_children }
        },
    }
}

/// Replaces the inline styles of each tree of `nodes` by classes.
fn assign_all<T: Message>(
    nodes: Vec<MessageHandledVNode<T>>,
    entries: &Vec<StyleEntry>,
    used: &mut Vec<bool>,
    pending: &mut Vec<StyleEntry>,
    taken: &mut Vec<u128>,
    Ghost(visited): Ghost<Seq<Seq<char>>>,
) -> (trees: Vec<StyleExtractedVNode<T>>)
    requires
        walk_inv(rules(entries@), old(used)@, rules(old(pending)@), old(taken)@, visited),
    ensures
        walk_inv(
            rules(entries@),
            final(used)@,
            rules(final(pending)@),
            final(taken)@,
            visited + style_texts(crate::vnode::message_handled_vnode::outlines(nodes@)),
        ),
        rules(old(pending)@).is_prefix_of(rules(final(pending)@)),
        extracted(trees@) == restyle_all(
            crate::vnode::message_handled_vnode::outlines(nodes@),
            rules(entries@) + rules(final(pending)@),
        ),
    decreases nodes,
{
    let ghost registered = rules(entries@);
    let ghost all = crate::vnode::message_handled_vnode::outlines(nodes@);
    let mut trees: Vec<StyleExtractedVNode<T>> = Vec::new();
    proof {
        lemma_outlines(nodes@);
        assert(all.take(0) =~= Seq::empty());
        assert(visited + style_texts(all.take(0)) =~= visited);
        assert(extracted(trees@) =~= restyle_all(all.take(0), registered + rules(pending@)));
    }
    for node in it: nodes
        invariant
            registered == rules(entries@),
            all == crate::vnode::message_handled_vnode::outlines(nodes@),
            all.len() == nodes.len(),
            forall|k: int| 0 <= k < nodes.len() ==> (#[trigger] all[k]) == nodes[k]@,
            walk_inv(
                registered,
                used@,
                rules(pending@),
                taken@,
                visited + style_texts(all.take(it.index() as int)),
            ),
            rules(old(pending)@).is_prefix_of(rules(pending@)),
            extracted(trees@) == restyle_all(
                all.take(it.index() as int),
                registered + rules(pending@),
            ),
    {
        let ghost i = it.index() as int;
        let ghost shape = node@;
        let ghost seen = visited + style_texts(all.take(i));
        let ghost pending_before = rules(pending@);
        let ghost trees_before = trees@;
        proof {
            assert(node == nodes[i]);
            assert(all.take(i + 1).drop_last() =~= all.take(i));
            assert(all.take(i + 1).last() == shape);
            assert(visited + style_texts(all.take(i + 1)) =~= seen + style_texts_one(shape));
        }
        let tree = assign(node, entries, used, pending, taken, Ghost(seen));
        let ghost made = tree@;
        trees.push(tree);
        proof {
            let before = registered + pending_before;
            let grown = registered + rules(pending@);
            assert(trees@.drop_last() =~= trees_before);
            assert(trees@.last()@ == made);
            assert forall|text: Seq<char>| #[trigger]
                style_texts(all.take(i)).contains(text) implies id_for(before, text) == id_for(
                grown,
                text,
            ) by {
                let q = choose|q: int|
                    0 <= q < style_texts(all.take(i)).len() && style_texts(all.take(i))[q] == text;
                assert(seen[visited.len() + q] == text);
                lemma_walk_covers(registered, pending_before, seen, text);
                lemma_grown(registered, pending_before, rules(pending@), text);
            }
            lemma_restyle_all_agrees(all.take(i), before, grown);
        }
    }
    proof {
        assert(all.take(nodes.len() as int) =~= all);
    }
    trees
}

} // verus!
