//! A text with the address literals found in it.
//!
//! A tagged text can be written out with every tagged range replaced by its
//! decoration, or as a JSON document that lists the tags.

use crate::error::Error;
use crate::splice::{spliced, spliced_prefix, splices_end, splices_ordered, Splice};
use crate::text::{decimal_string, decimal_text, json_quote, json_quoted, lossy_string, utf8_lossy};
use core::ops::Range;
use vstd::prelude::*;
use vstd::slice::slice_to_vec;
use vstd::utf8::encode_utf8;

verus! {

/// An address literal found in a text.
#[derive(Clone, Debug)]
pub struct Tag {
    ip: String,
    range: Option<Range<usize>>,
    decorated: Option<String>,
}

/// What a tag holds.
pub struct TagView {
    pub ip: Seq<char>,
    pub range: Option<Range<usize>>,
    pub decorated: Option<Seq<char>>,
}

/// The text of a tagged document as a string.
#[derive(Clone, Debug)]
pub struct TextData {
    pub text: String,
}

/// A text with its tags.
#[derive(Clone, Debug)]
pub struct Tagged {
    text: Vec<u8>,
    tags: Vec<Tag>,
    text_data: Option<TextData>,
}

impl View for Tag {
    type V = TagView;

    closed spec fn view(&self) -> TagView {
        TagView {
            ip: self.ip@,
            range: self.range,
            decorated: match self.decorated {
                Some(d) => Some(d@),
                None => None,
            },
        }
    }
}

/// What a sequence of tags holds.
pub open spec fn tag_views(tags: Seq<Tag>) -> Seq<TagView> {
    Seq::new(tags.len(), |i: int| tags[i]@)
}

/// What takes the place of a tagged range: the decoration of the tag, or
/// the bytes of the range where the tag has none.
pub open spec fn tag_replacement(text: Seq<u8>, tag: TagView) -> Seq<u8> {
    match tag.decorated {
        Some(d) => encode_utf8(d),
        None => text.subrange(tag.range->0.start as int, tag.range->0.end as int),
    }
}

/// The replacements that tags ask for, in the order of the tags. A tag
/// without a range asks for none.
pub open spec fn tag_splices(text: Seq<u8>, tags: Seq<TagView>) -> Seq<Splice>
    decreases tags.len(),
{
    if tags.len() == 0 {
        Seq::<Splice>::empty()
    } else {
        let before = tag_splices(text, tags.drop_last());
        match tags.last().range {
            Some(r) => before.push(
                Splice {
                    start: r.start as int,
                    end: r.end as int,
                    with: tag_replacement(text, tags.last()),
                },
            ),
            None => before,
        }
    }
}

/// A JSON object for a tag, made of strings that are quoted already: the
/// literal under `value`, the range as a pair under `range` and the
/// decoration under `decorated`, the latter two only where they are given.
pub open spec fn tag_object_text(
    value: Seq<char>,
    range: Option<Range<usize>>,
    decorated: Option<Seq<char>>,
) -> Seq<char> {
    "{\"value\":"@ + value + (match range {
        Some(r) => ",\"range\":["@ + decimal_text(r.start as nat) + ","@ + decimal_text(
            r.end as nat,
        ) + "]"@,
        None => Seq::<char>::empty(),
    }) + (match decorated {
        Some(d) => ",\"decorated\":"@ + d,
        None => Seq::<char>::empty(),
    }) + "}"@
}

/// One tag as a JSON object, with its literal and its decoration quoted.
pub open spec fn tag_json(tag: TagView) -> Seq<char> {
    tag_object_text(
        json_quoted(tag.ip),
        tag.range,
        match tag.decorated {
            Some(d) => Some(json_quoted(d)),
            None => None,
        },
    )
}

/// The JSON objects of tags, with commas between them.
pub open spec fn tags_json(tags: Seq<TagView>) -> Seq<char>
    decreases tags.len(),
{
    if tags.len() == 0 {
        Seq::<char>::empty()
    } else if tags.len() == 1 {
        tag_json(tags[0])
    } else {
        tags_json(tags.drop_last()) + ","@ + tag_json(tags.last())
    }
}

/// A JSON document made of a list of tag objects and of a text that is
/// quoted already: the list under `tags`, and the text under `data.text`.
pub open spec fn document_text(list: Seq<char>, text: Seq<char>) -> Seq<char> {
    "{\"tags\":["@ + list + "],\"data\":{\"text\":"@ + text + "}}"@
}

/// A tagged text as a JSON document: the tags under `tags`, and the text
/// under `data.text`.
pub open spec fn document_json(tags: Seq<TagView>, text: Seq<char>) -> Seq<char> {
    document_text(tags_json(tags), json_quoted(text))
}

/// Writes a JSON object for a tag from strings that are quoted already.
pub fn tag_object(value: &str, range: Option<&Range<usize>>, decorated: Option<&str>) -> (r: String)
    ensures
        r@ == tag_object_text(
            value@,
            match range {
                Some(x) => Some(*x),
                None => None,
            },
            match decorated {
                Some(d) => Some(d@),
                None => None,
            },
        ),
{
    let mut object = String::from_str("{\"value\":");
    object.append(value);
    let ghost after_value = object@;
    match range {
        Some(r) => {
            let mut pair = String::from_str(",\"range\":[");
            pair.append(decimal_string(r.start).as_str());
            pair.append(",");
            pair.append(decimal_string(r.end).as_str());
            pair.append("]");
            object.append(pair.as_str());
        },
        None => {
            assert(object@ == after_value + Seq::<char>::empty());
        },
    }
    let ghost after_range = object@;
    match decorated {
        Some(d) => {
            let mut member = String::from_str(",\"decorated\":");
            member.append(d);
            object.append(member.as_str());
        },
        None => {
            assert(object@ == after_range + Seq::<char>::empty());
        },
    }
    object.append("}");
    object
}

/// Writes a JSON document from a list of tag objects and a text that is
/// quoted already.
pub fn json_document(list: &str, text: &str) -> (r: String)
    ensures
        r@ == document_text(list@, text@),
{
    let mut json = String::from_str("{\"tags\":[");
    json.append(list);
    json.append("],\"data\":{\"text\":");
    json.append(text);
    json.append("}}");
    json
}

impl Tag {
    /// A tag for a literal, as yet without range and decoration.
    pub fn new(ip: &str) -> (r: Tag)
        ensures
            r@ == (TagView { ip: ip@, range: None, decorated: None }),
    {
        Tag { ip: String::from_str(ip), range: None, decorated: None }
    }

    /// Sets the byte range of the literal in its text.
    pub fn with_range(self, range: Range<usize>) -> (r: Tag)
        ensures
            r@ == (TagView { range: Some(range), ..self@ }),
    {
        let mut tag = self;
        tag.range = Some(range);
        tag
    }

    /// Sets the text that is written in the place of the literal.
    pub fn with_decoration(self, decorated: &str) -> (r: Tag)
        ensures
            r@ == (TagView { decorated: Some(decorated@), ..self@ }),
    {
        let mut tag = self;
        tag.decorated = Some(String::from_str(decorated));
        tag
    }

    /// The literal.
    pub fn ip(&self) -> (r: &str)
        ensures
            r@ == self@.ip,
    {
        self.ip.as_str()
    }

    /// The byte range of the literal, if it was set.
    pub fn range(&self) -> (r: Option<&Range<usize>>)
        ensures
            match r {
                Some(range) => self@.range == Some(*range),
                None => self@.range is None,
            },
    {
        self.range.as_ref()
    }

    /// Writes the tag onto the end of `json` as a JSON object, and tells
    /// that it did.
    pub fn append_json(&self, json: &mut String) -> (r: bool)
        ensures
            r,
            final(json)@ == old(json)@ + tag_json(self@),
    {
        let value = match json_quote(self.ip.as_str()) {
            Some(quoted) => quoted,
            None => {
                return false;
            },
        };
        let decoration = match &self.decorated {
            Some(d) => match json_quote(d.as_str()) {
                Some(quoted) => Some(quoted),
                None => {
                    return false;
                },
            },
            None => None,
        };
        let object = tag_object(
            value.as_str(),
            self.range.as_ref(),
            match &decoration {
                Some(quoted) => Some(quoted.as_str()),
                None => None,
            },
        );
        json.append(object.as_str());
        true
    }

    /// The decoration, if it was set.
    pub fn decorated(&self) -> (r: Option<&str>)
        ensures
            match r {
                Some(d) => self@.decorated == Some(d@),
                None => self@.decorated is None,
            },
    {
        match &self.decorated {
            Some(d) => Some(d.as_str()),
            None => None,
        }
    }
}

/// What the last tag adds to the replacements of the tags before it.
proof fn lemma_tag_splices_step(text: Seq<u8>, tags: Seq<TagView>)
    requires
        tags.len() > 0,
    ensures
        match tags.last().range {
            Some(r) => {
                let all = tag_splices(text, tags);
                &&& all.len() > 0
                &&& all.drop_last() == tag_splices(text, tags.drop_last())
                &&& all.last() == (Splice {
                    start: r.start as int,
                    end: r.end as int,
                    with: tag_replacement(text, tags.last()),
                })
            },
            None => tag_splices(text, tags) == tag_splices(text, tags.drop_last()),
        },
{
    let before = tag_splices(text, tags.drop_last());
    match tags.last().range {
        Some(r) => {
            let added = Splice {
                start: r.start as int,
                end: r.end as int,
                with: tag_replacement(text, tags.last()),
            };
            assert(before.push(added).drop_last() == before);
        },
        None => {},
    }
}

/// The replacements of a shorter list of tags are in order where those of
/// the whole list are.
proof fn lemma_tag_splices_prefix(text: Seq<u8>, tags: Seq<TagView>, i: int)
    requires
        0 <= i <= tags.len(),
        splices_ordered(text.len() as int, tag_splices(text, tags)),
    ensures
        splices_ordered(text.len() as int, tag_splices(text, tags.take(i))),
    decreases tags.len() - i,
{
    if i == tags.len() {
        assert(tags.take(i) == tags);
    } else {
        lemma_tag_splices_prefix(text, tags, i + 1);
        assert(tags.take(i + 1).drop_last() == tags.take(i));
        lemma_tag_splices_step(text, tags.take(i + 1));
    }
}

impl Tagged {
    /// The text.
    pub closed spec fn spec_text(&self) -> Seq<u8> {
        self.text@
    }

    /// The tags, in the order in which they were added.
    pub closed spec fn spec_tags(&self) -> Seq<TagView> {
        tag_views(self.tags@)
    }

    /// The text as a string, once it has been set.
    pub closed spec fn spec_text_data(&self) -> Option<Seq<char>> {
        match self.text_data {
            Some(d) => Some(d.text@),
            None => None,
        }
    }

    /// Whether the tagged ranges lie inside the text, in the order of the
    /// tags, none reaching into the next.
    pub open spec fn well_formed(&self) -> bool {
        splices_ordered(self.spec_text().len() as int, tag_splices(self.spec_text(), self.spec_tags()))
    }

    /// The text with every tagged range replaced.
    pub open spec fn decorated_text(&self) -> Seq<u8> {
        spliced(self.spec_text(), tag_splices(self.spec_text(), self.spec_tags()))
    }

    /// A text without tags.
    pub fn new(text: &[u8]) -> (r: Tagged)
        ensures
            r.spec_text() == text@,
            r.spec_tags() == Seq::<TagView>::empty(),
            r.spec_text_data() is None,
    {
        let tagged = Tagged { text: slice_to_vec(text), tags: Vec::new(), text_data: None };
        assert(tag_views(tagged.tags@) =~= Seq::<TagView>::empty());
        tagged
    }

    /// Adds a tag.
    pub fn tag(self, tag: Tag) -> (r: Tagged)
        ensures
            r.spec_text() == self.spec_text(),
            r.spec_tags() == self.spec_tags().push(tag@),
            r.spec_text_data() == self.spec_text_data(),
    {
        let mut tagged = self;
        tagged.tags.push(tag);
        assert(tag_views(tagged.tags@) =~= tag_views(self.tags@).push(tag@));
        tagged
    }

    /// The tags.
    pub fn tags(&self) -> (r: &[Tag])
        ensures
            tag_views(r@) == self.spec_tags(),
    {
        self.tags.as_slice()
    }

    /// The text.
    pub fn text(&self) -> (r: &[u8])
        ensures
            r@ == self.spec_text(),
    {
        self.text.as_slice()
    }

    /// Sets the text as a string.
    pub fn set_text_data(&mut self, data: TextData)
        ensures
            final(self).spec_text() == old(self).spec_text(),
            final(self).spec_tags() == old(self).spec_tags(),
            final(self).spec_text_data() == Some(data.text@),
    {
        self.text_data = Some(data);
    }

    /// Tells whether the tagged ranges lie inside the text and follow one
    /// another.
    pub fn is_well_formed(&self) -> (r: bool)
        ensures
            r == self.well_formed(),
    {
        let ghost views = tag_views(self.tags@);
        let mut last_end: usize = 0;
        let mut i: usize = 0;
        assert(views.take(0) == Seq::<TagView>::empty());
        while i < self.tags.len()
            invariant
                0 <= i <= self.tags@.len(),
                views == tag_views(self.tags@),
                splices_ordered(self.text@.len() as int, tag_splices(self.text@, views.take(i as int))),
                last_end == splices_end(tag_splices(self.text@, views.take(i as int))),
                last_end <= self.text@.len(),
            decreases self.tags@.len() - i,
        {
            proof {
                assert(views.take(i + 1).drop_last() == views.take(i as int));
                lemma_tag_splices_step(self.text@, views.take(i + 1));
            }
            match &self.tags[i].range {
                Some(r) => {
                    if !(last_end <= r.start && r.start <= r.end && r.end <= self.text.len()) {
                        proof {
                            if self.well_formed() {
                                lemma_tag_splices_prefix(self.text@, views, i + 1);
                            }
                        }
                        return false;
                    }
                    last_end = r.end;
                },
                None => {},
            }
            i += 1;
        }
        assert(views.take(self.tags@.len() as int) == views);
        true
    }

    /// Writes the text onto the end of `out`, with every tagged range
    /// replaced: by the decoration of its tag, or by its own bytes where
    /// the tag has none. A tag without a range leaves no trace.
    pub fn write(&self, out: &mut Vec<u8>)
        requires
            self.well_formed(),
        ensures
            final(out)@ == old(out)@ + self.decorated_text(),
    {
        let ghost views = tag_views(self.tags@);
        let mut last_end: usize = 0;
        let mut i: usize = 0;
        assert(views.take(0) == Seq::<TagView>::empty());
        assert(out@ == old(out)@ + Seq::<u8>::empty());
        while i < self.tags.len()
            invariant
                0 <= i <= self.tags@.len(),
                views == tag_views(self.tags@),
                self.well_formed(),
                last_end == splices_end(tag_splices(self.text@, views.take(i as int))),
                last_end <= self.text@.len(),
                out@ == old(out)@ + spliced_prefix(
                    self.text@,
                    tag_splices(self.text@, views.take(i as int)),
                ),
            decreases self.tags@.len() - i,
        {
            let ghost done = spliced_prefix(
                self.text@,
                tag_splices(self.text@, views.take(i as int)),
            );
            proof {
                assert(views.take(i + 1).drop_last() == views.take(i as int));
                lemma_tag_splices_prefix(self.text@, views, i + 1);
                lemma_tag_splices_step(self.text@, views.take(i + 1));
            }
            let tag = &self.tags[i];
            match &tag.range {
                Some(r) => {
                    let text = self.text.as_slice();
                    out.extend_from_slice(&text[last_end..r.start]);
                    let ghost gap = self.text@.subrange(last_end as int, r.start as int);
                    match &tag.decorated {
                        Some(d) => {
                            out.extend_from_slice(d.as_str().as_bytes());
                        },
                        None => {
                            out.extend_from_slice(&text[r.start..r.end]);
                        },
                    }
                    assert(out@ == old(out)@ + (done + gap + tag_replacement(
                        self.text@,
                        views[i as int],
                    )));
                    last_end = r.end;
                },
                None => {},
            }
            i += 1;
        }
        assert(views.take(self.tags@.len() as int) == views);
        let ghost done = spliced_prefix(self.text@, tag_splices(self.text@, views));
        let text = self.text.as_slice();
        out.extend_from_slice(&text[last_end..self.text.len()]);
        assert(out@ == old(out)@ + (done + self.text@.subrange(
            last_end as int,
            self.text@.len() as int,
        )));
    }

    /// Sets the text as a string, decoded leniently from the bytes, unless
    /// it has been set before.
    pub fn fill_text_data(&mut self)
        ensures
            final(self).spec_text() == old(self).spec_text(),
            final(self).spec_tags() == old(self).spec_tags(),
            final(self).spec_text_data() == Some(
                match old(self).spec_text_data() {
                    Some(t) => t,
                    None => utf8_lossy(old(self).spec_text()),
                },
            ),
    {
        if self.text_data.is_none() {
            self.text_data = Some(TextData { text: lossy_string(self.text.as_slice()) });
        }
    }

    /// The JSON document of the tagged text.
    pub fn to_json(&self) -> (r: Option<String>)
        requires
            self.spec_text_data() is Some,
        ensures
            r matches Some(json) && json@ == document_json(
                self.spec_tags(),
                self.spec_text_data()->0,
            ),
    {
        let ghost views = tag_views(self.tags@);
        let mut list = String::new();
        let mut i: usize = 0;
        assert(views.take(0) == Seq::<TagView>::empty());
        while i < self.tags.len()
            invariant
                0 <= i <= self.tags@.len(),
                views == tag_views(self.tags@),
                list@ == tags_json(views.take(i as int)),
            decreases self.tags@.len() - i,
        {
            proof {
                assert(views.take(i + 1).drop_last() == views.take(i as int));
                assert(views.take(i + 1).last() == views[i as int]);
            }
            let ghost done = list@;
            if i > 0 {
                list.append(",");
            }
            if !self.tags[i].append_json(&mut list) {
                return None;
            }
            proof {
                let object = tag_json(views[i as int]);
                if i > 0 {
                    assert(list@ == done + ","@ + object);
                } else {
                    assert(done == Seq::<char>::empty());
                    assert(list@ == object);
                    assert(views.take(1)[0] == views[0]);
                }
            }
            i += 1;
        }
        assert(views.take(self.tags@.len() as int) == views);
        let text = match &self.text_data {
            Some(d) => d.text.as_str(),
            None => "",
        };
        match json_quote(text) {
            Some(quoted) => Some(json_document(list.as_str(), quoted.as_str())),
            None => None,
        }
    }

    /// Writes the tagged text onto the end of `out` as a JSON document,
    /// after setting the text as a string where it was not set. Every text
    /// can be quoted, so that it succeeds.
    pub fn write_json(&mut self, out: &mut Vec<u8>) -> (r: Result<(), Error>)
        ensures
            final(self).spec_text() == old(self).spec_text(),
            final(self).spec_tags() == old(self).spec_tags(),
            final(self).spec_text_data() == Some(
                match old(self).spec_text_data() {
                    Some(t) => t,
                    None => utf8_lossy(old(self).spec_text()),
                },
            ),
            r is Ok,
            final(out)@ == old(out)@ + encode_utf8(
                document_json(final(self).spec_tags(), final(self).spec_text_data()->0),
            ),
    {
        self.fill_text_data();
        match self.to_json() {
            Some(json) => {
                out.extend_from_slice(json.as_str().as_bytes());
                Ok(())
            },
            None => Err(Error::Serialize { message: String::from_str("text cannot be quoted") }),
        }
    }
}

} // verus!
