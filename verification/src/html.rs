//! The document model that the HTML events carry: a tag with a name,
//! ordered attributes, and ordered children that are text or tags.

use vstd::prelude::*;

verus! {

broadcast use vstd::std_specs::vec::group_vec_axioms;

/// The mathematical shape of one piece of document content.
pub enum ContentView {
    /// A text node.
    Text(Seq<char>),
    /// A child tag.
    Child(TagView),
}

/// The mathematical shape of a tag: name, attribute pairs in order, and
/// children in order.
pub struct TagView {
    /// The tag's name.
    pub name: Seq<char>,
    /// The attribute pairs, in emission order.
    pub attributes: Seq<(Seq<char>, Seq<char>)>,
    /// The children, in order.
    pub children: Seq<ContentView>,
}

/// A piece of document content: a text node or a child tag.
#[derive(Debug)]
pub enum HtmlContent {
    /// A text element.
    Text(String),
    /// A child tag.
    Child(HtmlTag),
}

/// A document tag: a name, its attributes in order, and its contents.
#[derive(Debug)]
pub struct HtmlTag {
    /// The name of the tag.
    pub name: String,
    /// The attributes of the tag, in order.
    pub attributes: Vec<(String, String)>,
    /// The contents of the tag.
    pub data: Vec<HtmlContent>,
}

impl View for HtmlContent {
    type V = ContentView;

    open spec fn view(&self) -> ContentView
        decreases self,
    {
        match self {
            HtmlContent::Text(s) => ContentView::Text(s@),
            HtmlContent::Child(t) => ContentView::Child(t@),
        }
    }
}

impl View for HtmlTag {
    type V = TagView;

    open spec fn view(&self) -> TagView
        decreases self,
    {
        TagView {
            name: self.name@,
            attributes: attrs_view(self.attributes@),
            children: contents_view(self.data@),
        }
    }
}

/// The attribute pairs of a tag, as character sequences.
pub open spec fn attrs_view(s: Seq<(String, String)>) -> Seq<(Seq<char>, Seq<char>)> {
    Seq::new(s.len(), |i: int| (s[i].0@, s[i].1@))
}

/// The contents of a tag, as their mathematical shapes.
pub open spec fn contents_view(s: Seq<HtmlContent>) -> Seq<ContentView>
    decreases s,
{
    if s.len() == 0 {
        Seq::empty()
    } else {
        contents_view(s.drop_last()).push(s.last()@)
    }
}

/// The shape list indexes pointwise into the content list.
pub proof fn lemma_contents_view(s: Seq<HtmlContent>)
    ensures
        contents_view(s).len() == s.len(),
        forall|i: int| 0 <= i < s.len() ==> contents_view(s)[i] == (#[trigger] s[i])@,
    decreases s,
{
    if s.len() > 0 {
        lemma_contents_view(s.drop_last());
        assert(contents_view(s) == contents_view(s.drop_last()).push(s.last()@));
        assert(contents_view(s.drop_last()).len() == s.len() - 1);
        assert forall|i: int| 0 <= i < s.len() implies contents_view(s)[i] == (
        #[trigger] s[i])@ by {
            if i < s.len() - 1 {
                assert(s.drop_last()[i] == s[i]);
                assert(contents_view(s.drop_last())[i] == s.drop_last()[i]@);
                assert(contents_view(s)[i] == contents_view(s.drop_last())[i]);
            } else {
                assert(s.last() == s[i]);
                assert(contents_view(s)[i] == s.last()@);
            }
        }
    }
}

/// Appending one content element appends its shape.
pub proof fn lemma_contents_view_push(s: Seq<HtmlContent>, c: HtmlContent)
    ensures
        contents_view(s.push(c)) == contents_view(s).push(c@),
{
    assert(s.push(c).drop_last() =~= s);
    assert(s.push(c).last() == c);
}

/// An empty tag: no name, no attributes, no contents.
pub open spec fn empty_tag_view() -> TagView {
    TagView { name: Seq::empty(), attributes: Seq::empty(), children: Seq::empty() }
}

impl HtmlContent {
    /// The text of the content; a child tag reads as the empty text.
    pub fn get_text(&self) -> (r: String)
        ensures
            r@ == (match self@ {
                ContentView::Text(s) => s,
                ContentView::Child(_) => Seq::<char>::empty(),
            }),
    {
        match self {
            HtmlContent::Text(text) => text.clone(),
            _ => String::new(),
        }
    }

    /// The child tag of the content; a text node reads as an empty tag.
    pub fn get_child(&self) -> (r: HtmlTag)
        ensures
            r@ == (match self@ {
                ContentView::Child(t) => t,
                ContentView::Text(_) => empty_tag_view(),
            }),
    {
        match self {
            HtmlContent::Child(tag) => clone_tag(tag),
            _ => {
                let empty = HtmlTag { name: String::new(), attributes: Vec::new(), data: Vec::new() };
                proof {
                    lemma_contents_view(empty.data@);
                    assert(empty@.attributes =~= Seq::<(Seq<char>, Seq<char>)>::empty());
                    assert(empty@.children =~= Seq::<ContentView>::empty());
                }
                empty
            },
        }
    }
}

impl HtmlTag {
    /// Creates a tag with no attributes and no contents.
    pub fn new(name: String) -> (r: HtmlTag)
        ensures
            r@ == (TagView {
                name: name@,
                attributes: Seq::empty(),
                children: Seq::empty(),
            }),
    {
        let r = HtmlTag { name, attributes: Vec::new(), data: Vec::new() };
        proof {
            lemma_contents_view(r.data@);
            assert(r@.attributes =~= Seq::<(Seq<char>, Seq<char>)>::empty());
            assert(r@.children =~= Seq::<ContentView>::empty());
        }
        r
    }

    /// Appends an attribute pair.
    pub fn add_attribute(&mut self, name: String, value: String)
        ensures
            final(self)@ == (TagView {
                attributes: old(self)@.attributes.push((name@, value@)),
                ..old(self)@
            }),
    {
        self.attributes.push((name, value));
        proof {
            assert(self@.attributes =~= old(self)@.attributes.push((name@, value@)));
            assert(self@.children =~= old(self)@.children);
        }
    }

    /// Appends a content element.
    pub fn add_data(&mut self, data: HtmlContent)
        ensures
            final(self)@ == (TagView {
                children: old(self)@.children.push(data@),
                ..old(self)@
            }),
    {
        let ghost dv = data@;
        let ghost prev = self.data@;
        self.data.push(data);
        proof {
            lemma_contents_view_push(prev, self.data@.last());
            assert(self@.children =~= old(self)@.children.push(dv));
            assert(self@.attributes =~= old(self)@.attributes);
        }
    }

    /// The tag's name.
    pub fn get_name(&self) -> (r: String)
        ensures
            r@ == self@.name,
    {
        self.name.clone()
    }
}

/// Copies one content element.
pub fn clone_content(c: &HtmlContent) -> (r: HtmlContent)
    ensures
        r@ == c@,
    decreases *c,
{
    match c {
        HtmlContent::Text(s) => HtmlContent::Text(s.clone()),
        HtmlContent::Child(t) => HtmlContent::Child(clone_tag(t)),
    }
}

/// Copies a whole tag tree.
pub fn clone_tag(t: &HtmlTag) -> (r: HtmlTag)
    ensures
        r@ == t@,
    decreases *t,
{
    let mut attributes: Vec<(String, String)> = Vec::new();
    let mut i: usize = 0;
    while i < t.attributes.len()
        invariant
            i <= t.attributes@.len(),
            attributes@.len() == i as int,
            forall|k: int| 0 <= k < i ==> (#[trigger] attributes@[k]).0@ == t.attributes@[k].0@
                && attributes@[k].1@ == t.attributes@[k].1@,
        decreases t.attributes@.len() - i,
    {
        let pair = (t.attributes[i].0.clone(), t.attributes[i].1.clone());
        attributes.push(pair);
        i = i + 1;
    }
    let mut data: Vec<HtmlContent> = Vec::new();
    let mut j: usize = 0;
    while j < t.data.len()
        invariant
            j <= t.data@.len(),
            data@.len() == j as int,
            forall|k: int| 0 <= k < j ==> (#[trigger] data@[k])@ == t.data@[k]@,
        decreases t.data@.len() - j,
    {
        let c = clone_content(&t.data[j]);
        data.push(c);
        j = j + 1;
    }
    let r = HtmlTag { name: t.name.clone(), attributes, data };
    proof {
        lemma_contents_view(r.data@);
        lemma_contents_view(t.data@);
        assert(r@.attributes =~= t@.attributes);
        assert forall|k: int| 0 <= k < t.data@.len() implies contents_view(r.data@)[k]
            == contents_view(t.data@)[k] by {
            assert(contents_view(r.data@)[k] == (r.data@[k])@);
            assert(contents_view(t.data@)[k] == (t.data@[k])@);
        }
        assert(r@.children =~= t@.children);
    }
    r
}


/// The shapes of a stack of tags, in the same order.
pub open spec fn tags_view(s: Seq<HtmlTag>) -> Seq<TagView> {
    Seq::new(s.len(), |i: int| s[i]@)
}

/// Pushing a tag pushes its shape.
pub proof fn lemma_tags_view_push(s: Seq<HtmlTag>, t: HtmlTag)
    ensures
        tags_view(s.push(t)) == tags_view(s).push(t@),
{
    assert(tags_view(s.push(t)) =~= tags_view(s).push(t@));
}

/// Popping a tag pops its shape.
pub proof fn lemma_tags_view_pop(s: Seq<HtmlTag>)
    requires
        s.len() > 0,
    ensures
        tags_view(s.drop_last()) == tags_view(s).drop_last(),
        tags_view(s).last() == s.last()@,
{
    assert(tags_view(s.drop_last()) =~= tags_view(s).drop_last());
}

} // verus!
