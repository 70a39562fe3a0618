use vstd::prelude::*;
use crate::clock::unix_now_secs;
use crate::text::{chars_of, push_char};

verus! {

/// A stored expansion: typing `trigger` pastes `content`.
#[derive(Debug, Clone)]
pub struct Snippet {
    pub id: String,
    pub trigger: String,
    pub content: String,
    pub description: Option<String>,
    pub tags: Vec<String>,
    pub created_at: u64,
    pub updated_at: u64,
    pub usage_count: u32,
    pub is_html: bool,
}

/// Lower-case hexadecimal digit.
pub open spec fn is_lower_hex(c: char) -> bool {
    ('0' <= c && c <= '9') || ('a' <= c && c <= 'f')
}

/// The hyphenated text of a version-4 UUID: 36 characters, hyphens at
/// positions 8, 13, 18 and 23, lower-case hex digits elsewhere, and the
/// version digit `4` at position 14.
pub open spec fn is_uuid_v4_text(s: Seq<char>) -> bool {
    &&& s.len() == 36
    &&& forall|i: int|
        0 <= i < 36 ==> if i == 8 || i == 13 || i == 18 || i == 23 {
            #[trigger] s[i] == '-'
        } else {
            is_lower_hex(s[i])
        }
    &&& s[14] == '4'
}

/// Relies on `uuid::Uuid::new_v4` and its `Display`: a random version-4 UUID in
/// lower-case hyphenated form.
#[verifier::external_body]
fn fresh_uuid() -> (r: String)
    ensures
        is_uuid_v4_text(r@),
{
    uuid::Uuid::new_v4().to_string()
}

/// What `str::to_lowercase` returns for a string.
pub uninterp spec fn lower_of(s: Seq<char>) -> Seq<char>;

/// Relies on `str::to_lowercase`: the result depends on the characters alone.
#[verifier::external_body]
fn lowercase(s: &str) -> (r: String)
    ensures
        r@ == lower_of(s@),
{
    s.to_lowercase()
}

/// `needle` occurs in `hay` as a contiguous run.
pub open spec fn occurs_in(needle: Seq<char>, hay: Seq<char>) -> bool {
    exists|k: int|
        0 <= k && k + needle.len() <= hay.len() && #[trigger] hay.subrange(k, k + needle.len())
            == needle
}

/// The texts a search looks through: trigger, content, description if any,
/// then each tag.
pub open spec fn search_fields(s: Snippet) -> Seq<Seq<char>> {
    let head = seq![s.trigger@, s.content@];
    let with_desc = match s.description {
        Some(d) => head.push(d@),
        None => head,
    };
    with_desc + s.tags@.map_values(|t: String| t@)
}

/// The escaped form of one character of plain text.
pub open spec fn escape_char(c: char) -> Seq<char> {
    if c == '&' {
        seq!['&', 'a', 'm', 'p', ';']
    } else if c == '<' {
        seq!['&', 'l', 't', ';']
    } else if c == '>' {
        seq!['&', 'g', 't', ';']
    } else if c == '"' {
        seq!['&', 'q', 'u', 'o', 't', ';']
    } else if c == '\'' {
        seq!['&', '#', 'x', '2', '7', ';']
    } else {
        seq![c]
    }
}

/// Plain text with `&`, `<`, `>`, `"` and `'` turned into HTML entities.
pub open spec fn escape_html(s: Seq<char>) -> Seq<char>
    decreases s.len(),
{
    if s.len() == 0 {
        Seq::empty()
    } else {
        escape_html(s.drop_last()) + escape_char(s.last())
    }
}

/// Whether `needle` occurs in `hay`.
pub fn contains_chars(hay: &Vec<char>, needle: &Vec<char>) -> (r: bool)
    ensures
        r == occurs_in(needle@, hay@),
{
    if needle.len() == 0 {
        assert(hay@.subrange(0int, 0int + needle@.len()) =~= needle@);
        return true;
    }
    if needle.len() > hay.len() {
        return false;
    }
    let hl: usize = hay.len();
    let nl: usize = needle.len();
    let last = hl - nl;
    let mut k: usize = 0;
    while k <= last
        invariant
            hl == hay@.len(),
            nl == needle@.len(),
            0 < nl <= hl,
            last == hl - nl,
            k <= last + 1,
            forall|p: int|
                0 <= p < k ==> #[trigger] hay@.subrange(p, p + needle@.len()) != needle@,
        decreases last + 1 - k,
    {
        let mut m: usize = 0;
        let mut same = true;
        while m < nl
            invariant
                hl == hay@.len(),
                nl == needle@.len(),
                k <= last,
                last == hl - nl,
                m <= nl,
                same == forall|q: int| 0 <= q < m ==> hay@[k + q] == needle@[q],
            decreases nl - m,
        {
            if hay[k + m] != needle[m] {
                same = false;
            }
            m = m + 1;
        }
        if same {
            assert(hay@.subrange(k as int, k + needle@.len()) =~= needle@);
            return true;
        }
        assert(hay@.subrange(k as int, k + needle@.len()) !~= needle@) by {
            let q = choose|q: int| 0 <= q < needle@.len() && hay@[k + q] != needle@[q];
            assert(hay@.subrange(k as int, k + needle@.len())[q] != needle@[q]);
        }
        k = k + 1;
    }
    false
}

/// Whether the lower-cased query occurs in any of the lower-cased fields.
pub fn any_field_contains(query_lower: &str, fields_lower: &Vec<String>) -> (r: bool)
    ensures
        r == exists|i: int|
            0 <= i < fields_lower@.len() && occurs_in(query_lower@, #[trigger] fields_lower@[i]@),
{
    let needle = chars_of(query_lower);
    let mut i: usize = 0;
    while i < fields_lower.len()
        invariant
            needle@ == query_lower@,
            i <= fields_lower@.len(),
            forall|j: int| 0 <= j < i ==> !occurs_in(query_lower@, #[trigger] fields_lower@[j]@),
        decreases fields_lower@.len() - i,
    {
        let hay = chars_of(fields_lower[i].as_str());
        if contains_chars(&hay, &needle) {
            return true;
        }
        i = i + 1;
    }
    false
}

impl Snippet {
    /// A new snippet with a fresh random id, both timestamps set to now, and
    /// no uses yet.
    pub fn new(
        trigger: String,
        content: String,
        description: Option<String>,
        tags: Vec<String>,
        is_html: bool,
    ) -> (r: Self)
        ensures
            is_uuid_v4_text(r.id@),
            r.trigger == trigger,
            r.content == content,
            r.description == description,
            r.tags == tags,
            r.created_at == r.updated_at,
            r.usage_count == 0,
            r.is_html == is_html,
    {
        let timestamp = unix_now_secs();
        Snippet {
            id: fresh_uuid(),
            trigger,
            content,
            description,
            tags,
            created_at: timestamp,
            updated_at: timestamp,
            usage_count: 0,
            is_html,
        }
    }

    /// Replaces the editable fields and stamps the update time.
    pub fn _update(
        &mut self,
        trigger: String,
        content: String,
        description: Option<String>,
        tags: Vec<String>,
        is_html: bool,
    )
        ensures
            final(self).id == old(self).id,
            final(self).trigger == trigger,
            final(self).content == content,
            final(self).description == description,
            final(self).tags == tags,
            final(self).is_html == is_html,
            final(self).created_at == old(self).created_at,
            final(self).usage_count == old(self).usage_count,
    {
        self.trigger = trigger;
        self.content = content;
        self.description = description;
        self.tags = tags;
        self.is_html = is_html;
        self.updated_at = unix_now_secs();
    }

    /// Counts one more use and stamps the update time.
    pub fn _increment_usage(&mut self)
        requires
            old(self).usage_count < u32::MAX,
        ensures
            final(self).usage_count == old(self).usage_count + 1,
            final(self).id == old(self).id,
            final(self).trigger == old(self).trigger,
            final(self).content == old(self).content,
            final(self).description == old(self).description,
            final(self).tags == old(self).tags,
            final(self).is_html == old(self).is_html,
            final(self).created_at == old(self).created_at,
    {
        self.usage_count = self.usage_count + 1;
        self.updated_at = unix_now_secs();
    }

    /// Case-insensitive search: the lower-cased query occurs in the
    /// lower-cased trigger, content, description or one of the tags.
    pub fn _matches_search(&self, query: &str) -> (r: bool)
        ensures
            r == exists|i: int|
                0 <= i < search_fields(*self).len() && occurs_in(
                    lower_of(query@),
                    lower_of(#[trigger] search_fields(*self)[i]),
                ),
    {
        let query_lower = lowercase(query);
        let mut fields: Vec<String> = Vec::new();
        fields.push(lowercase(self.trigger.as_str()));
        fields.push(lowercase(self.content.as_str()));
        match &self.description {
            Some(d) => fields.push(lowercase(d.as_str())),
            None => {},
        }
        let ghost head = fields@.len();
        let mut i: usize = 0;
        while i < self.tags.len()
            invariant
                i <= self.tags@.len(),
                fields@.len() == head + i,
                head == 2 + if self.description is Some { 1int } else { 0int },
                fields@[0]@ == lower_of(self.trigger@),
                fields@[1]@ == lower_of(self.content@),
                self.description matches Some(d) ==> fields@[2]@ == lower_of(d@),
                forall|j: int| 0 <= j < i ==> #[trigger] fields@[head + j]@ == lower_of(self.tags@[j]@),
            decreases self.tags@.len() - i,
        {
            fields.push(lowercase(self.tags[i].as_str()));
            i = i + 1;
        }
        let r = any_field_contains(query_lower.as_str(), &fields);
        proof {
            let sf = search_fields(*self);
            assert(sf.len() == fields@.len());
            assert forall|j: int| 0 <= j < sf.len() implies #[trigger] fields@[j]@ == lower_of(sf[j]) by {
                if j >= head {
                    assert(fields@[head + (j - head)]@ == lower_of(self.tags@[j - head]@));
                }
            }
            if r {
                let j = choose|j: int| 0 <= j < fields@.len() && occurs_in(query_lower@, #[trigger] fields@[j]@);
                assert(occurs_in(lower_of(query@), lower_of(sf[j])));
            } else {
                assert forall|j: int| 0 <= j < sf.len() implies !occurs_in(
                    lower_of(query@),
                    lower_of(#[trigger] sf[j]),
                ) by {
                    assert(fields@[j]@ == lower_of(sf[j]));
                }
            }
        }
        r
    }

    /// The content ready to paste as HTML: as stored when it is HTML, with the
    /// HTML special characters escaped when it is plain text.
    pub fn _get_sanitized_html(&self) -> (r: String)
        ensures
            r@ == if self.is_html { self.content@ } else { escape_html(self.content@) },
    {
        if self.is_html {
            return self.content.clone();
        }
        let src = chars_of(self.content.as_str());
        let mut out = String::new();
        let mut i: usize = 0;
        while i < src.len()
            invariant
                i <= src@.len(),
                out@ == escape_html(src@.subrange(0, i as int)),
            decreases src@.len() - i,
        {
            let c = src[i];
            proof {
                let pre = src@.subrange(0, i as int + 1);
                assert(pre.drop_last() =~= src@.subrange(0, i as int));
            }
            if c == '&' {
                proof { reveal_strlit("&amp;"); }
                out.append("&amp;");
            } else if c == '<' {
                proof { reveal_strlit("&lt;"); }
                out.append("&lt;");
            } else if c == '>' {
                proof { reveal_strlit("&gt;"); }
                out.append("&gt;");
            } else if c == '"' {
                proof { reveal_strlit("&quot;"); }
                out.append("&quot;");
            } else if c == '\'' {
                proof { reveal_strlit("&#x27;"); }
                out.append("&#x27;");
            } else {
                push_char(&mut out, c);
            }
            i = i + 1;
            assert(out@ =~= escape_html(src@.subrange(0, i as int)));
        }
        assert(src@.subrange(0, src@.len() as int) =~= src@);
        out
    }
}

} // verus!
