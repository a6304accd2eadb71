use vstd::prelude::*;
use vstd::string::*;

use crate::duration::Duration;
use crate::timestamp::Timestamp;

verus! {

/// The kind of an elementary stream found in a container file.
#[derive(Clone, Copy, Debug, PartialEq, Eq, Structural)]
pub enum StreamType {
    Audio,
    Video,
    Text,
}

/// Which kinds of streams the opened media holds.
#[derive(Clone, Copy, Debug, PartialEq, Eq, Structural)]
pub enum MediaContent {
    Audio,
    AudioVideo,
    AudioText,
    AudioVideoText,
    Text,
    Video,
    VideoText,
    Undefined,
}

/// What `MediaContent` becomes once a stream of kind `type_` is recorded.
pub open spec fn content_with_stream_type(content: MediaContent, type_: StreamType) -> MediaContent {
    match type_ {
        StreamType::Audio => match content {
            MediaContent::Text => MediaContent::AudioText,
            MediaContent::Video => MediaContent::AudioVideo,
            MediaContent::VideoText => MediaContent::AudioVideoText,
            MediaContent::Undefined => MediaContent::Audio,
            _ => content,
        },
        StreamType::Video => match content {
            MediaContent::Audio => MediaContent::AudioVideo,
            MediaContent::Text => MediaContent::VideoText,
            MediaContent::AudioText => MediaContent::AudioVideoText,
            MediaContent::Undefined => MediaContent::Video,
            _ => content,
        },
        StreamType::Text => match content {
            MediaContent::Audio => MediaContent::AudioText,
            MediaContent::Video => MediaContent::VideoText,
            MediaContent::AudioVideo => MediaContent::AudioVideoText,
            MediaContent::Undefined => MediaContent::Text,
            _ => content,
        },
    }
}

impl MediaContent {
    pub fn add_stream_type(&mut self, type_: StreamType)
        ensures
            *final(self) == content_with_stream_type(*old(self), type_),
    {
        match type_ {
            StreamType::Audio => match *self {
                MediaContent::Text => *self = MediaContent::AudioText,
                MediaContent::Video => *self = MediaContent::AudioVideo,
                MediaContent::VideoText => *self = MediaContent::AudioVideoText,
                MediaContent::Undefined => *self = MediaContent::Audio,
                _ => (),
            },
            StreamType::Video => match *self {
                MediaContent::Audio => *self = MediaContent::AudioVideo,
                MediaContent::Text => *self = MediaContent::VideoText,
                MediaContent::AudioText => *self = MediaContent::AudioVideoText,
                MediaContent::Undefined => *self = MediaContent::Video,
                _ => (),
            },
            StreamType::Text => match *self {
                MediaContent::Audio => *self = MediaContent::AudioText,
                MediaContent::Video => *self = MediaContent::VideoText,
                MediaContent::AudioVideo => *self = MediaContent::AudioVideoText,
                MediaContent::Undefined => *self = MediaContent::Text,
                _ => (),
            },
        }
    }
}

impl Default for MediaContent {
    fn default() -> (r: Self)
        ensures
            r == MediaContent::Undefined,
    {
        MediaContent::Undefined
    }
}

/// One entry of a tag set: a tag name together with its value.
#[derive(Debug)]
pub struct Tag {
    pub name: String,
    pub value: String,
}

impl Clone for Tag {
    fn clone(&self) -> (r: Self)
        ensures
            r == *self,
    {
        Tag { name: self.name.clone(), value: self.value.clone() }
    }
}

/// One chapter of a table of contents: start, exclusive end, and a
/// title where the source provides one.
#[derive(Debug)]
pub struct TocEntry {
    pub start: Timestamp,
    pub end: Timestamp,
    pub title: Option<String>,
}

impl Clone for TocEntry {
    fn clone(&self) -> (r: Self)
        ensures
            r == *self,
    {
        TocEntry {
            start: self.start,
            end: self.end,
            title: match &self.title {
                Option::Some(title) => Option::Some(title.clone()),
                Option::None => Option::None,
            },
        }
    }
}

/// The fallback title used for chapters the table of contents leaves unnamed.
pub fn get_default_chapter_title() -> (r: String)
    ensures
        r@ == "untitled"@,
{
    String::from_str("untitled")
}

/// The error raised when a stream selection names an id missing
/// from the inventory.
#[derive(Debug)]
pub struct SelectStreamError(String);

impl SelectStreamError {
    /// The offending stream id.
    pub closed spec fn spec_id(&self) -> Seq<char> {
        self.0@
    }

    pub fn new(id: &String) -> (r: Self)
        ensures
            r.spec_id() == id@,
    {
        SelectStreamError(id.clone())
    }

    pub fn id(&self) -> (r: &String)
        ensures
            r@ == self.spec_id(),
    {
        &self.0
    }
}

/// The first position at or past `i` that holds a slash, or the end.
pub open spec fn non_slash_end(s: Seq<char>, i: int) -> int
    decreases s.len() - i,
{
    if i < 0 || i >= s.len() || s[i] == '/' {
        i
    } else {
        non_slash_end(s, i + 1)
    }
}

proof fn lemma_non_slash_end(s: Seq<char>, i: int)
    requires
        0 <= i <= s.len(),
    ensures
        i <= non_slash_end(s, i) <= s.len(),
        non_slash_end(s, i) < s.len() ==> s[non_slash_end(s, i)] == '/',
    decreases s.len() - i,
{
    if i < s.len() && s[i] != '/' {
        lemma_non_slash_end(s, i + 1);
    }
}

/// The codec a capability name of the shape `kind/codec` displays as:
/// the part after the single slash, with a leading `x-` stripped; a
/// name of any other shape stands as it is.
pub open spec fn codec_from_caps(s: Seq<char>) -> Seq<char> {
    let e1 = non_slash_end(s, 0);
    if e1 >= s.len() {
        s
    } else if non_slash_end(s, e1 + 1) < s.len() {
        s
    } else {
        let rest = s.subrange(e1 + 1, s.len() as int);
        if rest.len() >= 2 && rest[0] == 'x' && rest[1] == '-' {
            rest.subrange(2, rest.len() as int)
        } else {
            rest
        }
    }
}

/// The first slash at or past `from`, or the length when none follows.
fn find_slash(text: &str, from: usize) -> (r: usize)
    requires
        from <= text@.len(),
    ensures
        from <= r <= text@.len(),
        r == non_slash_end(text@, from as int),
{
    let len = text.unicode_len();
    let mut i = from;
    loop
        invariant
            from <= i <= len,
            len == text@.len(),
            non_slash_end(text@, from as int) == non_slash_end(text@, i as int),
        ensures
            from <= i <= len,
            i == non_slash_end(text@, from as int),
        decreases len - i,
    {
        if i >= len {
            break;
        }
        if text.get_char(i) == '/' {
            break;
        }
        i = i + 1;
    }
    i
}

/// The codec name a stream displays under: the codec tag where the
/// stream carries one, otherwise the codec read off its capability
/// name.
pub fn printable_codec(tag_codec: Option<String>, caps_name: &str) -> (r: String)
    ensures
        r@ == match tag_codec {
            Option::Some(codec) => codec@,
            Option::None => codec_from_caps(caps_name@),
        },
{
    match tag_codec {
        Option::Some(codec) => codec,
        Option::None => {
            let len = caps_name.unicode_len();
            let e1 = find_slash(caps_name, 0);
            proof {
                lemma_non_slash_end(caps_name@, 0);
            }
            if e1 >= len {
                return caps_name.to_owned();
            }
            if find_slash(caps_name, e1 + 1) < len {
                return caps_name.to_owned();
            }
            let rest = caps_name.substring_char(e1 + 1, len);
            proof {
                lemma_non_slash_end(caps_name@, e1 + 1);
            }
            let rest_len = rest.unicode_len();
            if rest_len >= 2 && rest.get_char(0) == 'x' && rest.get_char(1) == '-' {
                let stripped = rest.substring_char(2, rest_len);
                proof {
                    assert(stripped@ =~= codec_from_caps(caps_name@));
                }
                stripped.to_owned()
            } else {
                proof {
                    assert(rest@ =~= codec_from_caps(caps_name@));
                }
                rest.to_owned()
            }
        },
    }
}

/// One elementary stream of the opened media.
#[derive(Debug)]
pub struct Stream {
    pub id: String,
    pub codec_printable: String,
    pub type_: StreamType,
}

impl Clone for Stream {
    fn clone(&self) -> (r: Self)
        ensures
            r == *self,
    {
        Stream {
            id: self.id.clone(),
            codec_printable: self.codec_printable.clone(),
            type_: self.type_,
        }
    }
}

impl Stream {
    pub fn new(id: String, codec_printable: String, type_: StreamType) -> (r: Self)
        ensures
            r.id@ == id@,
            r.codec_printable@ == codec_printable@,
            r.type_ == type_,
    {
        Stream { id, codec_printable, type_ }
    }
}

/// Whether a sequence of streams holds one with the given id.
pub open spec fn streams_contain(streams: Seq<Stream>, id: Seq<char>) -> bool {
    exists|i: int| 0 <= i < streams.len() && streams[i].id@ == id
}

/// The stream with the given id, scanning front to back.
pub open spec fn stream_with_id(streams: Seq<Stream>, id: Seq<char>) -> Option<Stream>
    decreases streams.len(),
{
    if streams.len() == 0 {
        Option::None
    } else if streams[0].id@ == id {
        Option::Some(streams[0])
    } else {
        stream_with_id(streams.drop_first(), id)
    }
}

/// All stream ids in the sequence are distinct.
pub open spec fn stream_ids_unique(streams: Seq<Stream>) -> bool {
    forall|i: int, j: int|
        0 <= i < j < streams.len() ==> streams[i].id@ != streams[j].id@
}

/// The streams of one kind, keyed by their unique ids.
#[derive(Debug)]
pub struct StreamCollection {
    pub type_: StreamType,
    pub collection: Vec<Stream>,
}

impl StreamCollection {
    pub open spec fn wf(&self) -> bool {
        stream_ids_unique(self.collection@)
    }

    pub open spec fn spec_contains(&self, id: Seq<char>) -> bool {
        streams_contain(self.collection@, id)
    }

    pub fn new(type_: StreamType) -> (r: Self)
        ensures
            r.type_ == type_,
            r.collection@.len() == 0,
            r.wf(),
    {
        StreamCollection { type_, collection: Vec::new() }
    }

    /// Index of the stream carrying `id`, if one is recorded.
    fn index_of(&self, id: &String) -> (r: Option<usize>)
        ensures
            match r {
                Option::Some(i) => i < self.collection@.len() && self.collection@[i as int].id@
                    == id@ && (forall|j: int|
                    0 <= j < i ==> self.collection@[j].id@ != id@),
                Option::None => !self.spec_contains(id@),
            },
    {
        let n = self.collection.len();
        for i in 0..n
            invariant
                n == self.collection@.len(),
                forall|j: int| 0 <= j < i ==> self.collection@[j].id@ != id@,
        {
            if self.collection[i].id.eq(id) {
                return Option::Some(i);
            }
        }
        Option::None
    }

    pub fn contains(&self, id: &String) -> (r: bool)
        ensures
            r == self.spec_contains(id@),
    {
        match self.index_of(id) {
            Option::Some(_) => true,
            Option::None => false,
        }
    }

    pub fn get(&self, id: &String) -> (r: Option<&Stream>)
        ensures
            match r {
                Option::Some(s) => s.id@ == id@ && stream_with_id(self.collection@, id@)
                    == Option::Some(*s),
                Option::None => !self.spec_contains(id@),
            },
    {
        match self.index_of(id) {
            Option::Some(i) => {
                proof {
                    lemma_stream_with_id_first(self.collection@, i as int);
                }
                Option::Some(&self.collection[i])
            },
            Option::None => Option::None,
        }
    }

    /// The streams in increasing id order; the collection itself is
    /// left as it is.
    pub fn sorted(&self) -> (r: Vec<Stream>)
        ensures
            r@.len() == self.collection@.len(),
            r@.to_multiset() == self.collection@.to_multiset(),
            forall|i: int, j: int| 0 <= i < j < r@.len() ==> id_le(r@[i].id@, r@[j].id@),
    {
        broadcast use vstd::seq_lib::group_to_multiset_ensures;

        // a working copy of the collection
        let mut pending: Vec<Stream> = Vec::new();
        let n = self.collection.len();
        for idx in 0..n
            invariant
                n == self.collection@.len(),
                pending@ == self.collection@.take(idx as int),
        {
            pending.push(self.collection[idx].clone());
            proof {
                assert(pending@ =~= self.collection@.take(idx + 1));
            }
        }
        proof {
            assert(pending@ =~= self.collection@);
        }

        // selection sort: move the least remaining id over, one at a time
        let mut result: Vec<Stream> = Vec::new();
        while pending.len() > 0
            invariant
                result@.to_multiset().add(pending@.to_multiset())
                    == self.collection@.to_multiset(),
                result@.len() + pending@.len() == self.collection@.len(),
                forall|i: int, j: int|
                    0 <= i < j < result@.len() ==> id_le(result@[i].id@, result@[j].id@),
                forall|i: int, j: int|
                    0 <= i < result@.len() && 0 <= j < pending@.len() ==> id_le(
                        result@[i].id@,
                        pending@[j].id@,
                    ),
            decreases pending@.len(),
        {
            broadcast use vstd::seq_lib::group_to_multiset_ensures;

            let plen = pending.len();
            let mut m: usize = 0;
            proof {
                lemma_id_le_total(pending@[0].id@, pending@[0].id@);
            }
            for k in 1..plen
                invariant
                    plen == pending@.len(),
                    m < plen,
                    forall|j: int| 0 <= j < k ==> id_le(pending@[m as int].id@, pending@[j].id@),
            {
                if id_le_exec(&pending[k].id, &pending[m].id) {
                    proof {
                        assert forall|j: int| 0 <= j < k + 1 implies id_le(
                            pending@[k as int].id@,
                            pending@[j].id@,
                        ) by {
                            if j < k {
                                lemma_id_le_trans(
                                    pending@[k as int].id@,
                                    pending@[m as int].id@,
                                    pending@[j].id@,
                                );
                            } else {
                                lemma_id_le_total(pending@[k as int].id@, pending@[k as int].id@);
                            }
                        }
                    }
                    m = k;
                } else {
                    proof {
                        lemma_id_le_total(
                            pending@[m as int].id@,
                            pending@[k as int].id@,
                        );
                    }
                }
            }
            proof {
                lemma_id_le_total(pending@[m as int].id@, pending@[m as int].id@);
            }

            let ghost pre_pending = pending@;
            let ghost pre_result = result@;
            let s = pending.remove(m);
            result.push(s);
            proof {
                assert(pre_pending.to_multiset().count(s) > 0) by {
                    assert(pre_pending.contains(s)) by {
                        assert(pre_pending[m as int] == s);
                    }
                }
                assert(result@.to_multiset().add(pending@.to_multiset())
                    =~= self.collection@.to_multiset());
                // the moved stream follows everything sorted so far and
                // precedes everything still pending
                assert forall|i: int, j: int|
                    0 <= i < result@.len() && 0 <= j < pending@.len() implies id_le(
                    result@[i].id@,
                    pending@[j].id@,
                ) by {
                    let pj = if j < m { j } else { j + 1 };
                    assert(pending@[j] == pre_pending[pj]);
                    if i < pre_result.len() {
                        assert(id_le(result@[i].id@, pending@[j].id@));
                    } else {
                        assert(result@[i] == s);
                        assert(id_le(s.id@, pre_pending[pj].id@));
                    }
                }
            }
        }
        result
    }

    /// Records a stream, replacing any stream already keyed by the same id.
    pub fn add_stream(&mut self, stream: Stream)
        requires
            old(self).wf(),
        ensures
            final(self).wf(),
            final(self).type_ == old(self).type_,
            final(self).spec_contains(stream.id@),
            streams_contain(final(self).collection@, stream.id@),
            // every id recorded before is still recorded, and no other id appears
            forall|id: Seq<char>|
                id != stream.id@ ==> (#[trigger] streams_contain(final(self).collection@, id)
                    == streams_contain(old(self).collection@, id)),
            // the stream stored under the new id is exactly the argument
            stream_with_id(final(self).collection@, stream.id@) == Option::Some(stream),
    {
        let ghost old_streams = self.collection@;
        match self.index_of(&stream.id) {
            Option::Some(i) => {
                let ghost sid = stream.id@;
                self.collection.set(i, stream);
                proof {
                    let new_streams = self.collection@;
                    assert forall|id: Seq<char>|
                        id != sid implies (#[trigger] streams_contain(new_streams, id)
                        == streams_contain(old_streams, id)) by {
                        if streams_contain(new_streams, id) {
                            let k = choose|k: int|
                                0 <= k < new_streams.len() && new_streams[k].id@ == id;
                            assert(old_streams[k].id@ == id);
                        }
                        if streams_contain(old_streams, id) {
                            let k = choose|k: int|
                                0 <= k < old_streams.len() && old_streams[k].id@ == id;
                            assert(new_streams[k].id@ == id);
                        }
                    }
                    lemma_stream_with_id_unique(new_streams, i as int);
                }
            },
            Option::None => {
                let ghost sid = stream.id@;
                self.collection.push(stream);
                proof {
                    let new_streams = self.collection@;
                    assert forall|id: Seq<char>|
                        id != sid implies (#[trigger] streams_contain(new_streams, id)
                        == streams_contain(old_streams, id)) by {
                        if streams_contain(new_streams, id) {
                            let k = choose|k: int|
                                0 <= k < new_streams.len() && new_streams[k].id@ == id;
                            assert(0 <= k < old_streams.len() && old_streams[k].id@ == id);
                        }
                        if streams_contain(old_streams, id) {
                            let k = choose|k: int|
                                0 <= k < old_streams.len() && old_streams[k].id@ == id;
                            assert(new_streams[k].id@ == id);
                        }
                    }
                    assert(streams_contain(new_streams, sid)) by {
                        assert(new_streams[new_streams.len() - 1].id@ == sid);
                    }
                    lemma_stream_with_id_unique(new_streams, new_streams.len() - 1);
                }
            },
        }
    }
}

/// The stream found for the id of a first occurrence is that very stream.
proof fn lemma_stream_with_id_first(streams: Seq<Stream>, i: int)
    requires
        0 <= i < streams.len(),
        forall|j: int| 0 <= j < i ==> streams[j].id@ != streams[i].id@,
    ensures
        stream_with_id(streams, streams[i].id@) == Option::Some(streams[i]),
    decreases i,
{
    if i == 0 {
    } else {
        assert(streams[0].id@ != streams[i].id@);
        lemma_stream_with_id_first(streams.drop_first(), i - 1);
        assert(streams.drop_first()[i - 1] == streams[i]);
    }
}

/// In a sequence with unique ids, the stream found for `streams[i].id` is `streams[i]`.
proof fn lemma_stream_with_id_unique(streams: Seq<Stream>, i: int)
    requires
        stream_ids_unique(streams),
        0 <= i < streams.len(),
    ensures
        stream_with_id(streams, streams[i].id@) == Option::Some(streams[i]),
{
    lemma_stream_with_id_first(streams, i);
}

/// The view of an optional stream id.
pub open spec fn opt_id_view(id: Option<String>) -> Option<Seq<char>> {
    match id {
        Option::Some(id) => Option::Some(id@),
        Option::None => Option::None,
    }
}

/// A stream is found for an id exactly when the sequence holds that id.
pub proof fn lemma_stream_with_id_contains(streams: Seq<Stream>, id: Seq<char>)
    ensures
        (stream_with_id(streams, id) is Some) == streams_contain(streams, id),
    decreases streams.len(),
{
    if streams.len() == 0 {
    } else if streams[0].id@ == id {
    } else {
        lemma_stream_with_id_contains(streams.drop_first(), id);
        if streams_contain(streams, id) {
            let k = choose|k: int| 0 <= k < streams.len() && streams[k].id@ == id;
            assert(streams.drop_first()[k - 1].id@ == id);
        }
        if streams_contain(streams.drop_first(), id) {
            let k = choose|k: int|
                0 <= k < streams.drop_first().len() && streams.drop_first()[k].id@ == id;
            assert(streams[k + 1].id@ == id);
        }
    }
}

/// Code-point order on stream ids; agrees with the byte order the
/// standard string comparison uses.
pub open spec fn id_le(a: Seq<char>, b: Seq<char>) -> bool
    decreases a.len(),
{
    if a.len() == 0 {
        true
    } else if b.len() == 0 {
        false
    } else if (a[0] as u32) < (b[0] as u32) {
        true
    } else if (a[0] as u32) > (b[0] as u32) {
        false
    } else {
        id_le(a.drop_first(), b.drop_first())
    }
}

proof fn lemma_id_le_total(a: Seq<char>, b: Seq<char>)
    ensures
        id_le(a, b) || id_le(b, a),
    decreases a.len(),
{
    if a.len() != 0 && b.len() != 0 && (a[0] as u32) == (b[0] as u32) {
        lemma_id_le_total(a.drop_first(), b.drop_first());
    }
}

proof fn lemma_id_le_trans(a: Seq<char>, b: Seq<char>, c: Seq<char>)
    requires
        id_le(a, b),
        id_le(b, c),
    ensures
        id_le(a, c),
    decreases a.len(),
{
    if a.len() != 0 && b.len() != 0 && c.len() != 0 && (a[0] as u32) == (b[0] as u32) && (
    b[0] as u32) == (c[0] as u32) {
        lemma_id_le_trans(a.drop_first(), b.drop_first(), c.drop_first());
    }
}

/// Whether `a`'s id sorts at or before `b`'s.
fn id_le_exec(a: &String, b: &String) -> (r: bool)
    ensures
        r == id_le(a@, b@),
{
    let a_str = a.as_str();
    let b_str = b.as_str();
    let a_len = a_str.unicode_len();
    let b_len = b_str.unicode_len();
    let mut i: usize = 0;
    proof {
        assert(a@.skip(0) =~= a@);
        assert(b@.skip(0) =~= b@);
    }
    loop
        invariant
            i <= a_len,
            i <= b_len,
            a_len == a@.len(),
            b_len == b@.len(),
            a_str@ == a@,
            b_str@ == b@,
            id_le(a@, b@) == id_le(a@.skip(i as int), b@.skip(i as int)),
        ensures
            i <= a_len,
            i <= b_len,
            a_len == a@.len(),
            b_len == b@.len(),
            ({
                let ra = a@.skip(i as int);
                let rb = b@.skip(i as int);
                id_le(a@, b@) == id_le(ra, rb) && (ra.len() == 0 || rb.len() == 0 || (ra[0] as u32)
                    != (rb[0] as u32))
            }),
        decreases a_len - i,
    {
        if i >= a_len || i >= b_len {
            break;
        }
        let ca = a_str.get_char(i) as u32;
        let cb = b_str.get_char(i) as u32;
        if ca != cb {
            proof {
                assert(a@.skip(i as int)[0] == a@[i as int]);
                assert(b@.skip(i as int)[0] == b@[i as int]);
            }
            break;
        }
        proof {
            let ra = a@.skip(i as int);
            let rb = b@.skip(i as int);
            assert(ra[0] == a@[i as int] && rb[0] == b@[i as int]);
            assert(ra.drop_first() =~= a@.skip(i + 1));
            assert(rb.drop_first() =~= b@.skip(i + 1));
        }
        i = i + 1;
    }
    if i >= a_len {
        proof {
            assert(a@.skip(i as int).len() == 0);
        }
        true
    } else if i >= b_len {
        proof {
            assert(b@.skip(i as int).len() == 0 && a@.skip(i as int).len() > 0);
        }
        false
    } else {
        let ca = a_str.get_char(i) as u32;
        let cb = b_str.get_char(i) as u32;
        proof {
            assert(a@.skip(i as int)[0] == a@[i as int]);
            assert(b@.skip(i as int)[0] == b@[i as int]);
        }
        ca < cb
    }
}

/// The selection half of the inventory, as mathematical values:
/// per kind, the currently selected id and the changed flag.
pub struct SelectionState {
    pub cur_audio: Option<Seq<char>>,
    pub audio_changed: bool,
    pub cur_video: Option<Seq<char>>,
    pub video_changed: bool,
    pub cur_text: Option<Seq<char>>,
    pub text_changed: bool,
}

/// How recording one discovered stream changes the inventory: the stream
/// is stored under its kind (replacing any stream already keyed by its id),
/// every other id and the other kinds are untouched, the kind's selection
/// falls on the stream if nothing was selected yet, and the changed flags
/// stay as they were.
pub open spec fn stream_added(pre: Streams, post: Streams, stream: Stream) -> bool {
    &&& match stream.type_ {
        StreamType::Audio => {
            &&& post.video == pre.video
            &&& post.text == pre.text
            &&& stream_with_id(post.audio.collection@, stream.id@) == Option::Some(stream)
            &&& forall|id: Seq<char>|
                id != stream.id@ ==> (#[trigger] streams_contain(post.audio.collection@, id)
                    == streams_contain(pre.audio.collection@, id))
            &&& opt_id_view(post.cur_audio_id) == if pre.cur_audio_id is Some {
                opt_id_view(pre.cur_audio_id)
            } else {
                Option::Some(stream.id@)
            }
            &&& post.cur_video_id == pre.cur_video_id
            &&& post.cur_text_id == pre.cur_text_id
        },
        StreamType::Video => {
            &&& post.audio == pre.audio
            &&& post.text == pre.text
            &&& stream_with_id(post.video.collection@, stream.id@) == Option::Some(stream)
            &&& forall|id: Seq<char>|
                id != stream.id@ ==> (#[trigger] streams_contain(post.video.collection@, id)
                    == streams_contain(pre.video.collection@, id))
            &&& opt_id_view(post.cur_video_id) == if pre.cur_video_id is Some {
                opt_id_view(pre.cur_video_id)
            } else {
                Option::Some(stream.id@)
            }
            &&& post.cur_audio_id == pre.cur_audio_id
            &&& post.cur_text_id == pre.cur_text_id
        },
        StreamType::Text => {
            &&& post.audio == pre.audio
            &&& post.video == pre.video
            &&& stream_with_id(post.text.collection@, stream.id@) == Option::Some(stream)
            &&& forall|id: Seq<char>|
                id != stream.id@ ==> (#[trigger] streams_contain(post.text.collection@, id)
                    == streams_contain(pre.text.collection@, id))
            &&& opt_id_view(post.cur_text_id) == if pre.cur_text_id is Some {
                opt_id_view(pre.cur_text_id)
            } else {
                Option::Some(stream.id@)
            }
            &&& post.cur_audio_id == pre.cur_audio_id
            &&& post.cur_video_id == pre.cur_video_id
        },
    }
    &&& post.audio_changed == pre.audio_changed
    &&& post.video_changed == pre.video_changed
    &&& post.text_changed == pre.text_changed
}

/// The stream inventory: one collection per kind, plus the per-kind
/// current selection and its changed flag.
#[derive(Debug)]
pub struct Streams {
    pub audio: StreamCollection,
    pub video: StreamCollection,
    pub text: StreamCollection,
    pub cur_audio_id: Option<String>,
    pub audio_changed: bool,
    pub cur_video_id: Option<String>,
    pub video_changed: bool,
    pub cur_text_id: Option<String>,
    pub text_changed: bool,
}

impl Streams {
    pub open spec fn wf(&self) -> bool {
        &&& self.audio.wf()
        &&& self.video.wf()
        &&& self.text.wf()
        &&& self.audio.type_ == StreamType::Audio
        &&& self.video.type_ == StreamType::Video
        &&& self.text.type_ == StreamType::Text
    }

    /// The current selection, as mathematical values.
    pub open spec fn selection(&self) -> SelectionState {
        SelectionState {
            cur_audio: opt_id_view(self.cur_audio_id),
            audio_changed: self.audio_changed,
            cur_video: opt_id_view(self.cur_video_id),
            video_changed: self.video_changed,
            cur_text: opt_id_view(self.cur_text_id),
            text_changed: self.text_changed,
        }
    }

    /// The kind an id belongs to, audio taking precedence over text,
    /// and text over video, as in the lookup order of `select_streams`.
    pub open spec fn spec_stream_kind(&self, id: Seq<char>) -> Option<StreamType> {
        if self.audio.spec_contains(id) {
            Option::Some(StreamType::Audio)
        } else if self.text.spec_contains(id) {
            Option::Some(StreamType::Text)
        } else if self.video.spec_contains(id) {
            Option::Some(StreamType::Video)
        } else {
            Option::None
        }
    }

    /// Every id of the list is present in the inventory.
    pub open spec fn ids_all_known(&self, ids: Seq<String>) -> bool {
        forall|i: int| 0 <= i < ids.len() ==> self.spec_stream_kind(ids[i]@) is Some
    }

    /// How one selected id updates the selection: the id's kind now points
    /// at it, and that kind is marked changed unless it was already current.
    pub open spec fn selection_step(&self, st: SelectionState, id: String) -> SelectionState {
        match self.spec_stream_kind(id@) {
            Option::Some(StreamType::Audio) => SelectionState {
                cur_audio: Option::Some(id@),
                audio_changed: st.cur_audio != Option::Some(id@),
                ..st
            },
            Option::Some(StreamType::Text) => SelectionState {
                cur_text: Option::Some(id@),
                text_changed: st.cur_text != Option::Some(id@),
                ..st
            },
            Option::Some(StreamType::Video) => SelectionState {
                cur_video: Option::Some(id@),
                video_changed: st.cur_video != Option::Some(id@),
                ..st
            },
            Option::None => st,
        }
    }

    /// The selection after the first `n` ids of the list have been applied.
    pub open spec fn selection_upto(&self, ids: Seq<String>, n: int) -> SelectionState
        decreases n,
    {
        if n <= 0 {
            self.selection()
        } else {
            self.selection_step(self.selection_upto(ids, n - 1), ids[n - 1])
        }
    }

    /// Whether one of the first `n` ids belongs to the given kind.
    pub open spec fn selection_mentions(&self, ids: Seq<String>, kind: StreamType, n: int) -> bool {
        exists|i: int| 0 <= i < n && self.spec_stream_kind(ids[i]@) == Option::Some(kind)
    }

    /// The selection a successful `select_streams` call leaves behind:
    /// each id applied in order, then every kind the list does not mention
    /// cleared, marked changed only if it had a selection.
    pub open spec fn selection_outcome(&self, ids: Seq<String>) -> SelectionState {
        let n = ids.len() as int;
        let st = self.selection_upto(ids, n);
        let st = if self.selection_mentions(ids, StreamType::Audio, n) {
            st
        } else {
            SelectionState {
                cur_audio: Option::None,
                audio_changed: st.cur_audio is Some,
                ..st
            }
        };
        let st = if self.selection_mentions(ids, StreamType::Text, n) {
            st
        } else {
            SelectionState { cur_text: Option::None, text_changed: st.cur_text is Some, ..st }
        };
        if self.selection_mentions(ids, StreamType::Video, n) {
            st
        } else {
            SelectionState { cur_video: Option::None, video_changed: st.cur_video is Some, ..st }
        }
    }

    /// Records a discovered stream under its kind; the first stream of a
    /// kind becomes that kind's current selection.
    pub fn add_stream(&mut self, stream: Stream)
        requires
            old(self).wf(),
        ensures
            final(self).wf(),
            stream_added(*old(self), *final(self), stream),
    {
        match stream.type_ {
            StreamType::Audio => {
                if self.cur_audio_id.is_none() {
                    self.cur_audio_id = Option::Some(stream.id.clone());
                }
                self.audio.add_stream(stream);
            },
            StreamType::Video => {
                if self.cur_video_id.is_none() {
                    self.cur_video_id = Option::Some(stream.id.clone());
                }
                self.video.add_stream(stream);
            },
            StreamType::Text => {
                if self.cur_text_id.is_none() {
                    self.cur_text_id = Option::Some(stream.id.clone());
                }
                self.text.add_stream(stream);
            },
        }
    }

    /// The collection holding streams of the given kind.
    pub fn collection(&self, type_: StreamType) -> (r: &StreamCollection)
        ensures
            r == match type_ {
                StreamType::Audio => &self.audio,
                StreamType::Video => &self.video,
                StreamType::Text => &self.text,
            },
    {
        match type_ {
            StreamType::Audio => &self.audio,
            StreamType::Video => &self.video,
            StreamType::Text => &self.text,
        }
    }

    /// The stream a kind's current selection points at, if any.
    pub open spec fn spec_selected(collection: StreamCollection, cur: Option<String>) -> Option<
        Stream,
    > {
        match cur {
            Option::Some(id) => stream_with_id(collection.collection@, id@),
            Option::None => Option::None,
        }
    }

    pub fn selected_audio(&self) -> (r: Option<&Stream>)
        ensures
            match r {
                Option::Some(s) => Self::spec_selected(self.audio, self.cur_audio_id)
                    == Option::Some(*s),
                Option::None => Self::spec_selected(self.audio, self.cur_audio_id) is None,
            },
    {
        match &self.cur_audio_id {
            Option::Some(id) => {
                let r = self.audio.get(id);
                proof {
                    lemma_stream_with_id_contains(self.audio.collection@, id@);
                }
                r
            },
            Option::None => Option::None,
        }
    }

    pub fn selected_video(&self) -> (r: Option<&Stream>)
        ensures
            match r {
                Option::Some(s) => Self::spec_selected(self.video, self.cur_video_id)
                    == Option::Some(*s),
                Option::None => Self::spec_selected(self.video, self.cur_video_id) is None,
            },
    {
        match &self.cur_video_id {
            Option::Some(id) => {
                let r = self.video.get(id);
                proof {
                    lemma_stream_with_id_contains(self.video.collection@, id@);
                }
                r
            },
            Option::None => Option::None,
        }
    }

    pub fn selected_text(&self) -> (r: Option<&Stream>)
        ensures
            match r {
                Option::Some(s) => Self::spec_selected(self.text, self.cur_text_id)
                    == Option::Some(*s),
                Option::None => Self::spec_selected(self.text, self.cur_text_id) is None,
            },
    {
        match &self.cur_text_id {
            Option::Some(id) => {
                let r = self.text.get(id);
                proof {
                    lemma_stream_with_id_contains(self.text.collection@, id@);
                }
                r
            },
            Option::None => Option::None,
        }
    }

    pub fn is_video_selected(&self) -> (r: bool)
        ensures
            r == self.cur_video_id is Some,
    {
        self.cur_video_id.is_some()
    }

    pub fn audio_codec(&self) -> (r: Option<&String>)
        ensures
            match Self::spec_selected(self.audio, self.cur_audio_id) {
                Option::Some(s) => r matches Option::Some(c) && c@ == s.codec_printable@,
                Option::None => r is None,
            },
    {
        match self.selected_audio() {
            Option::Some(stream) => Option::Some(&stream.codec_printable),
            Option::None => Option::None,
        }
    }

    pub fn video_codec(&self) -> (r: Option<&String>)
        ensures
            match Self::spec_selected(self.video, self.cur_video_id) {
                Option::Some(s) => r matches Option::Some(c) && c@ == s.codec_printable@,
                Option::None => r is None,
            },
    {
        match self.selected_video() {
            Option::Some(stream) => Option::Some(&stream.codec_printable),
            Option::None => Option::None,
        }
    }

    /// Applies a stream selection. Every id must be present in the
    /// inventory; an unknown id fails the call and leaves the whole
    /// selection untouched.
    pub fn select_streams(&mut self, ids: &Vec<String>) -> (r: Result<(), SelectStreamError>)
        requires
            old(self).wf(),
        ensures
            final(self).wf(),
            final(self).audio == old(self).audio,
            final(self).video == old(self).video,
            final(self).text == old(self).text,
            r is Ok <==> old(self).ids_all_known(ids@),
            r matches Err(e) ==> final(self).selection() == old(self).selection() && exists|i: int|
                0 <= i < ids@.len() && old(self).spec_stream_kind(ids@[i]@) is None && (forall|
                j: int|
                    0 <= j < i ==> old(self).spec_stream_kind(ids@[j]@) is Some) && e.spec_id()
                    == ids@[i]@,
            r is Ok ==> final(self).selection() == old(self).selection_outcome(ids@),
    {
        let n = ids.len();

        // validation pass: every id must be known before anything changes
        for i in 0..n
            invariant
                n == ids@.len(),
                old(self).wf(),
                *self == *old(self),
                forall|j: int| 0 <= j < i ==> self.spec_stream_kind(ids@[j]@) is Some,
        {
            let id = &ids[i];
            if !self.audio.contains(id) && !self.text.contains(id) && !self.video.contains(id) {
                proof {
                    assert(self.spec_stream_kind(ids@[i as int]@) is None);
                    assert(forall|j: int|
                        0 <= j < i ==> old(self).spec_stream_kind(ids@[j]@) is Some);
                    assert(!old(self).ids_all_known(ids@));
                }
                return Result::Err(SelectStreamError::new(id));
            }
        }

        // application pass
        let mut audio_mentioned = false;
        let mut video_mentioned = false;
        let mut text_mentioned = false;
        for i in 0..n
            invariant
                n == ids@.len(),
                self.wf(),
                self.audio == old(self).audio,
                self.video == old(self).video,
                self.text == old(self).text,
                old(self).ids_all_known(ids@),
                self.selection() == old(self).selection_upto(ids@, i as int),
                audio_mentioned == old(self).selection_mentions(ids@, StreamType::Audio, i as int),
                video_mentioned == old(self).selection_mentions(ids@, StreamType::Video, i as int),
                text_mentioned == old(self).selection_mentions(ids@, StreamType::Text, i as int),
        {
            let id = &ids[i];
            let ghost st = self.selection();
            if self.audio.contains(id) {
                audio_mentioned = true;
                self.audio_changed = match &self.cur_audio_id {
                    Option::Some(cur) => !cur.eq(id),
                    Option::None => true,
                };
                self.cur_audio_id = Option::Some(id.clone());
                proof {
                    assert(old(self).spec_stream_kind(ids@[i as int]@) == Option::Some(
                        StreamType::Audio,
                    ));
                    assert(self.selection() == old(self).selection_step(st, ids@[i as int]));
                }
            } else if self.text.contains(id) {
                text_mentioned = true;
                self.text_changed = match &self.cur_text_id {
                    Option::Some(cur) => !cur.eq(id),
                    Option::None => true,
                };
                self.cur_text_id = Option::Some(id.clone());
                proof {
                    assert(old(self).spec_stream_kind(ids@[i as int]@) == Option::Some(
                        StreamType::Text,
                    ));
                    assert(self.selection() == old(self).selection_step(st, ids@[i as int]));
                }
            } else if self.video.contains(id) {
                video_mentioned = true;
                self.video_changed = match &self.cur_video_id {
                    Option::Some(cur) => !cur.eq(id),
                    Option::None => true,
                };
                self.cur_video_id = Option::Some(id.clone());
                proof {
                    assert(old(self).spec_stream_kind(ids@[i as int]@) == Option::Some(
                        StreamType::Video,
                    ));
                    assert(self.selection() == old(self).selection_step(st, ids@[i as int]));
                }
            } else {
                proof {
                    assert(old(self).spec_stream_kind(ids@[i as int]@) is Some);
                    assert(false);
                }
            }
            proof {
                assert(old(self).selection_upto(ids@, i + 1) == old(self).selection_step(
                    old(self).selection_upto(ids@, i as int),
                    ids@[i as int],
                ));
                if old(self).spec_stream_kind(ids@[i as int]@) == Option::Some(StreamType::Audio) {
                    assert(old(self).selection_mentions(ids@, StreamType::Audio, i + 1)) by {
                        assert(old(self).spec_stream_kind(ids@[i as int]@) == Option::Some(
                            StreamType::Audio,
                        ));
                    }
                }
                assert forall|kind: StreamType| #[trigger]
                    old(self).selection_mentions(ids@, kind, i + 1) == (old(self).selection_mentions(ids@, kind, i as int) || old(self).spec_stream_kind(
                        ids@[i as int]@,
                    ) == Option::Some(kind)) by {
                    if old(self).selection_mentions(ids@, kind, i + 1) {
                        let w = choose|w: int|
                            0 <= w < i + 1 && old(self).spec_stream_kind(ids@[w]@)
                                == Option::Some(kind);
                        if w < i {
                            assert(old(self).selection_mentions(ids@, kind, i as int));
                        }
                    }
                    if old(self).selection_mentions(ids@, kind, i as int) {
                        let w = choose|w: int|
                            0 <= w < i && old(self).spec_stream_kind(ids@[w]@) == Option::Some(
                                kind,
                            );
                        assert(0 <= w < i + 1);
                    }
                    if old(self).spec_stream_kind(ids@[i as int]@) == Option::Some(kind) {
                        assert(0 <= i < i + 1);
                    }
                }
            }
        }

        // kinds the list does not mention lose their selection
        if !audio_mentioned {
            self.audio_changed = self.cur_audio_id.is_some();
            self.cur_audio_id = Option::None;
        }
        if !text_mentioned {
            self.text_changed = self.cur_text_id.is_some();
            self.cur_text_id = Option::None;
        }
        if !video_mentioned {
            self.video_changed = self.cur_video_id.is_some();
            self.cur_video_id = Option::None;
        }

        Result::Ok(())
    }
}

impl Default for Streams {
    fn default() -> (r: Self)
        ensures
            r.wf(),
            r.audio.collection@.len() == 0,
            r.video.collection@.len() == 0,
            r.text.collection@.len() == 0,
            r.cur_audio_id is None,
            r.cur_video_id is None,
            r.cur_text_id is None,
            !r.audio_changed,
            !r.video_changed,
            !r.text_changed,
    {
        Streams {
            audio: StreamCollection::new(StreamType::Audio),
            video: StreamCollection::new(StreamType::Video),
            text: StreamCollection::new(StreamType::Text),
            cur_audio_id: Option::None,
            audio_changed: false,
            cur_video_id: Option::None,
            video_changed: false,
            cur_text_id: Option::None,
            text_changed: false,
        }
    }
}


/// Whether the tag set holds a tag of the given name.
pub open spec fn tags_have_name(tags: Seq<Tag>, name: Seq<char>) -> bool {
    exists|i: int| 0 <= i < tags.len() && tags[i].name@ == name
}

/// The first tag of the given name, scanning front to back.
pub open spec fn first_tag_with_name(tags: Seq<Tag>, name: Seq<char>) -> Option<Tag>
    decreases tags.len(),
{
    if tags.len() == 0 {
        Option::None
    } else if tags[0].name@ == name {
        Option::Some(tags[0])
    } else {
        first_tag_with_name(tags.drop_first(), name)
    }
}

/// The tag found for the name of a first occurrence is that very tag.
proof fn lemma_first_tag_with_name(tags: Seq<Tag>, i: int)
    requires
        0 <= i < tags.len(),
        forall|j: int| 0 <= j < i ==> tags[j].name@ != tags[i].name@,
    ensures
        first_tag_with_name(tags, tags[i].name@) == Option::Some(tags[i]),
    decreases i,
{
    if i > 0 {
        lemma_first_tag_with_name(tags.drop_first(), i - 1);
        assert(tags.drop_first()[i - 1] == tags[i]);
    }
}

/// A tag is found for a name exactly when the set holds that name.
proof fn lemma_first_tag_with_name_found(tags: Seq<Tag>, name: Seq<char>)
    ensures
        (first_tag_with_name(tags, name) is Some) == tags_have_name(tags, name),
    decreases tags.len(),
{
    if tags.len() == 0 {
    } else if tags[0].name@ == name {
    } else {
        lemma_first_tag_with_name_found(tags.drop_first(), name);
        if tags_have_name(tags, name) {
            let k = choose|k: int| 0 <= k < tags.len() && tags[k].name@ == name;
            assert(tags.drop_first()[k - 1].name@ == name);
        }
        if tags_have_name(tags.drop_first(), name) {
            let k = choose|k: int|
                0 <= k < tags.drop_first().len() && tags.drop_first()[k].name@ == name;
            assert(tags[k + 1].name@ == name);
        }
    }
}

/// A keep-mode tag merge: incoming tags are appended in order, except
/// those whose name is already present, which leave the existing entry
/// in place.
pub open spec fn merge_tags_keep(cur: Seq<Tag>, new: Seq<Tag>) -> Seq<Tag>
    decreases new.len(),
{
    if new.len() == 0 {
        cur
    } else {
        let cur2 = if tags_have_name(cur, new[0].name@) {
            cur
        } else {
            cur.push(new[0])
        };
        merge_tags_keep(cur2, new.drop_first())
    }
}

/// Everything discovered about one opened media file.
#[derive(Debug)]
pub struct MediaInfo {
    pub name: String,
    pub file_name: String,
    pub path: String,
    pub content: MediaContent,
    pub tags: Vec<Tag>,
    pub toc: Option<Vec<TocEntry>>,
    pub duration: Duration,
    pub streams: Streams,
}

impl MediaInfo {
    pub open spec fn wf(&self) -> bool {
        self.streams.wf()
    }

    /// An empty record for the file at `path`, filled in as the opening
    /// handshake discovers streams, tags and the table of contents.
    pub fn new(name: String, file_name: String, path: String) -> (r: Self)
        ensures
            r.wf(),
            r.name@ == name@,
            r.file_name@ == file_name@,
            r.path@ == path@,
            r.content == MediaContent::Undefined,
            r.tags@.len() == 0,
            r.toc is None,
            r.duration@ == 0,
            r.streams.audio.collection@.len() == 0,
            r.streams.video.collection@.len() == 0,
            r.streams.text.collection@.len() == 0,
            r.streams.cur_audio_id is None,
            r.streams.cur_video_id is None,
            r.streams.cur_text_id is None,
            !r.streams.audio_changed,
            !r.streams.video_changed,
            !r.streams.text_changed,
    {
        let streams: Streams = Default::default();
        MediaInfo {
            name,
            file_name,
            path,
            content: MediaContent::Undefined,
            tags: Vec::new(),
            toc: Option::None,
            duration: Duration::from_nanos(0),
            streams,
        }
    }

    /// Records one discovered stream and folds its kind into `content`.
    pub fn add_stream(&mut self, stream: Stream)
        requires
            old(self).wf(),
        ensures
            final(self).wf(),
            stream_added(old(self).streams, final(self).streams, stream),
            final(self).content == content_with_stream_type(old(self).content, stream.type_),
            final(self).name == old(self).name,
            final(self).file_name == old(self).file_name,
            final(self).path == old(self).path,
            final(self).tags == old(self).tags,
            final(self).toc == old(self).toc,
            final(self).duration == old(self).duration,
    {
        let type_ = stream.type_;
        self.streams.add_stream(stream);
        self.content.add_stream_type(type_);
    }

    /// The first accumulated tag of the given name.
    fn tag_with_name(&self, name: &String) -> (r: Option<&Tag>)
        ensures
            match r {
                Option::Some(tag) => first_tag_with_name(self.tags@, name@) == Option::Some(*tag),
                Option::None => !tags_have_name(self.tags@, name@),
            },
    {
        let n = self.tags.len();
        for i in 0..n
            invariant
                n == self.tags@.len(),
                forall|j: int| 0 <= j < i ==> self.tags@[j].name@ != name@,
        {
            if self.tags[i].name.eq(name) {
                proof {
                    lemma_first_tag_with_name(self.tags@, i as int);
                }
                return Option::Some(&self.tags[i]);
            }
        }
        Option::None
    }

    /// The tag shown for a display slot: the primary tag name when the
    /// set holds it, the secondary as the fallback. Only the global tag
    /// set is consulted.
    pub fn tag_for_display(&self, primary: &String, secondary: &String) -> (r: Option<&Tag>)
        ensures
            match r {
                Option::Some(tag) => if tags_have_name(self.tags@, primary@) {
                    first_tag_with_name(self.tags@, primary@) == Option::Some(*tag)
                } else {
                    first_tag_with_name(self.tags@, secondary@) == Option::Some(*tag)
                },
                Option::None => !tags_have_name(self.tags@, primary@) && !tags_have_name(
                    self.tags@,
                    secondary@,
                ),
            },
    {
        match self.tag_with_name(primary) {
            Option::Some(tag) => {
                proof {
                    lemma_first_tag_with_name_found(self.tags@, primary@);
                }
                Option::Some(tag)
            },
            Option::None => self.tag_with_name(secondary),
        }
    }

    /// The artist shown for the media: the artist tag, or the album
    /// artist.
    pub fn media_artist(&self) -> (r: Option<&Tag>)
        ensures
            match r {
                Option::Some(tag) => if tags_have_name(self.tags@, "artist"@) {
                    first_tag_with_name(self.tags@, "artist"@) == Option::Some(*tag)
                } else {
                    first_tag_with_name(self.tags@, "album-artist"@) == Option::Some(*tag)
                },
                Option::None => !tags_have_name(self.tags@, "artist"@) && !tags_have_name(
                    self.tags@,
                    "album-artist"@,
                ),
            },
    {
        self.tag_for_display(&String::from_str("artist"), &String::from_str("album-artist"))
    }

    /// The title shown for the media: the title tag, or the album name.
    pub fn media_title(&self) -> (r: Option<&Tag>)
        ensures
            match r {
                Option::Some(tag) => if tags_have_name(self.tags@, "title"@) {
                    first_tag_with_name(self.tags@, "title"@) == Option::Some(*tag)
                } else {
                    first_tag_with_name(self.tags@, "album"@) == Option::Some(*tag)
                },
                Option::None => !tags_have_name(self.tags@, "title"@) && !tags_have_name(
                    self.tags@,
                    "album"@,
                ),
            },
    {
        self.tag_for_display(&String::from_str("title"), &String::from_str("album"))
    }

    /// Whether the accumulated tag set already holds a tag of this name.
    fn has_tag(&self, name: &String) -> (r: bool)
        ensures
            r == tags_have_name(self.tags@, name@),
    {
        let n = self.tags.len();
        for i in 0..n
            invariant
                n == self.tags@.len(),
                forall|j: int| 0 <= j < i ==> self.tags@[j].name@ != name@,
        {
            if self.tags[i].name.eq(name) {
                return true;
            }
        }
        false
    }

    /// Merges a reported tag list into the accumulated set, keeping
    /// existing entries over incoming ones of the same name.
    pub fn add_tags(&mut self, tags: &Vec<Tag>)
        ensures
            final(self).tags@ == merge_tags_keep(old(self).tags@, tags@),
            final(self).name == old(self).name,
            final(self).file_name == old(self).file_name,
            final(self).path == old(self).path,
            final(self).content == old(self).content,
            final(self).toc == old(self).toc,
            final(self).duration == old(self).duration,
            final(self).streams == old(self).streams,
    {
        let n = tags.len();
        proof {
            assert(tags@.skip(0) =~= tags@);
        }
        for i in 0..n
            invariant
                n == tags@.len(),
                merge_tags_keep(old(self).tags@, tags@) == merge_tags_keep(
                    self.tags@,
                    tags@.skip(i as int),
                ),
                self.name == old(self).name,
                self.file_name == old(self).file_name,
                self.path == old(self).path,
                self.content == old(self).content,
                self.toc == old(self).toc,
                self.duration == old(self).duration,
                self.streams == old(self).streams,
        {
            let ghost pre_tags = self.tags@;
            let tag = &tags[i];
            if !self.has_tag(&tag.name) {
                self.tags.push(tag.clone());
            }
            proof {
                let rest = tags@.skip(i as int);
                assert(rest[0] == tags@[i as int]);
                assert(rest.drop_first() =~= tags@.skip(i + 1));
                if tags_have_name(pre_tags, tags@[i as int].name@) {
                    assert(self.tags@ == pre_tags);
                } else {
                    assert(self.tags@ == pre_tags.push(tags@[i as int]));
                }
                assert(merge_tags_keep(pre_tags, rest) == merge_tags_keep(
                    self.tags@,
                    tags@.skip(i + 1),
                ));
            }
        }
        proof {
            assert(tags@.skip(n as int) =~= Seq::<Tag>::empty());
        }
    }
}

} // verus!
