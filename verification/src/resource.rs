//! The two resources of the cache, and the names under which their files
//! are kept.

use vstd::prelude::*;

verus! {

/// The name of a file without a dot could not be split into stem and
/// extension.
#[derive(Clone, Copy, Debug, PartialEq, Eq)]
pub struct MalformedName;

/// The kinds of resource, in the order in which a cycle refreshes them.
#[derive(Clone, Copy, Debug, PartialEq, Eq)]
pub enum LinkType {
    /// The playlist. Its source is always configured.
    M3U,
    /// The programme guide. Its source may be missing.
    XmlTv,
}

/// The index of the last dot in `s`, if `s` holds a dot.
pub open spec fn last_dot(s: Seq<char>) -> Option<int>
    decreases s.len(),
{
    if s.len() == 0 {
        None
    } else if s.last() == '.' {
        Some(s.len() - 1)
    } else {
        last_dot(s.drop_last())
    }
}

/// What is put between the stem and the dot of a published name to name
/// the file that a fetch writes to.
pub open spec fn temp_mark() -> Seq<char> {
    "-temp"@
}

/// The temporary name that belongs to the published name `s`: `-temp` goes
/// in front of the last dot. A name without a dot has none.
pub open spec fn temp_name_of(s: Seq<char>) -> Option<Seq<char>> {
    match last_dot(s) {
        Some(i) => Some(s.subrange(0, i) + temp_mark() + s.subrange(i, s.len() as int)),
        None => None,
    }
}

/// The path of the file `name` in the directory `root`.
pub open spec fn path_in(root: Seq<char>, name: Seq<char>) -> Seq<char> {
    root + "/"@ + name
}

/// `last_dot` finds a dot, the last one, exactly when there is any.
pub proof fn lemma_last_dot(s: Seq<char>)
    ensures
        last_dot(s) is Some <==> s.contains('.'),
        last_dot(s) matches Some(i) ==> 0 <= i < s.len() && s[i] == '.' && forall|j: int|
            i < j < s.len() ==> s[j] != '.',
    decreases s.len(),
{
    if s.len() > 0 {
        let init = s.drop_last();
        lemma_last_dot(init);
        if s.last() != '.' {
            if s.contains('.') {
                let k = choose|k: int| 0 <= k < s.len() && s[k] == '.';
                assert(init[k] == '.');
            }
            if let Some(i) = last_dot(init) {
                assert forall|j: int| i < j < s.len() implies s[j] != '.' by {
                    if j < init.len() {
                        assert(s[j] == init[j]);
                    }
                }
            }
        }
    }
}

/// A temporary name is never the published name it belongs to, and in no
/// directory do the two name one file.
pub proof fn lemma_temp_name_differs(s: Seq<char>, root: Seq<char>)
    requires
        temp_name_of(s) is Some,
    ensures
        temp_name_of(s)->0 != s,
        path_in(root, temp_name_of(s)->0) != path_in(root, s),
{
    lemma_last_dot(s);
    reveal_strlit("-temp");
    let t = temp_name_of(s)->0;
    assert(t.len() == s.len() + 5);
    assert(path_in(root, t).len() != path_in(root, s).len());
}

/// The index of the last dot in `name`, counted in characters.
pub fn find_last_dot(name: &str) -> (found: Option<usize>)
    ensures
        found is Some <==> last_dot(name@) is Some,
        found matches Some(i) ==> last_dot(name@) == Some(i as int),
{
    let n: usize = name.unicode_len();
    let mut i: usize = n;
    assert(name@.subrange(0, n as int) == name@);
    while i > 0
        invariant
            i <= n,
            n == name@.len(),
            last_dot(name@) == last_dot(name@.subrange(0, i as int)),
        decreases i,
    {
        i = i - 1;
        let ghost head = name@.subrange(0, i + 1);
        assert(head.drop_last() == name@.subrange(0, i as int));
        if name.get_char(i) == '.' {
            return Some(i);
        }
    }
    None
}

/// The temporary name that belongs to the published name `name`.
pub fn temporary_name(name: &str) -> (made: Result<String, MalformedName>)
    ensures
        made is Ok <==> name@.contains('.'),
        made matches Ok(t) ==> temp_name_of(name@) == Some(t@),
{
    proof {
        lemma_last_dot(name@);
    }
    match find_last_dot(name) {
        Some(i) => {
            let n: usize = name.unicode_len();
            let mut made = String::from_str(name.substring_char(0, i));
            made.append("-temp");
            made.append(name.substring_char(i, n));
            Ok(made)
        },
        None => Err(MalformedName),
    }
}

/// The path of the file `name` in the directory `root`.
pub fn join_path(root: &str, name: &str) -> (path: String)
    ensures
        path@ == path_in(root@, name@),
{
    let mut path = String::from_str(root);
    path.append("/");
    path.append(name);
    path
}

impl LinkType {
    /// The name of the kind as it is printed.
    pub open spec fn label(self) -> Seq<char> {
        match self {
            LinkType::M3U => "M3U"@,
            LinkType::XmlTv => "XmlTv"@,
        }
    }

    /// The name under which the resource of this kind is published.
    pub open spec fn published(self) -> Seq<char> {
        match self {
            LinkType::M3U => "ilovetv.m3u"@,
            LinkType::XmlTv => "xmltv.xml"@,
        }
    }

    /// Both kinds, in the order in which a cycle refreshes them.
    pub open spec fn every() -> Seq<LinkType> {
        seq![LinkType::M3U, LinkType::XmlTv]
    }

    /// Both kinds, in the order in which a cycle refreshes them.
    pub fn all() -> (kinds: Vec<LinkType>)
        ensures
            kinds@ == LinkType::every(),
    {
        vec![LinkType::M3U, LinkType::XmlTv]
    }

    /// The name of the kind as it is printed.
    pub fn name(&self) -> (s: &'static str)
        ensures
            s@ == self.label(),
    {
        match self {
            LinkType::M3U => "M3U",
            LinkType::XmlTv => "XmlTv",
        }
    }

    /// The name under which the resource of this kind is published.
    pub fn file_name(&self) -> (s: &'static str)
        ensures
            s@ == self.published(),
    {
        match self {
            LinkType::M3U => "ilovetv.m3u",
            LinkType::XmlTv => "xmltv.xml",
        }
    }

    /// Both published names hold a dot, so both have a temporary name.
    pub proof fn lemma_published_has_dot(self)
        ensures
            self.published().contains('.'),
            temp_name_of(self.published()) is Some,
    {
        reveal_strlit("ilovetv.m3u");
        reveal_strlit("xmltv.xml");
        match self {
            LinkType::M3U => {
                assert("ilovetv.m3u"@[7] == '.');
            },
            LinkType::XmlTv => {
                assert("xmltv.xml"@[5] == '.');
            },
        }
        lemma_last_dot(self.published());
    }
}

/// The characters of a string that may be missing.
pub open spec fn text_of(s: Option<String>) -> Option<Seq<char>> {
    match s {
        Some(s) => Some(s@),
        None => None,
    }
}

/// What a resource is, with its strings as sequences of characters.
pub struct ResourceView {
    pub kind: LinkType,
    pub source_url: Option<Seq<char>>,
    pub published_name: Seq<char>,
    pub temporary_name: Seq<char>,
}

impl ResourceView {
    /// The temporary name is the one that belongs to the published name.
    pub open spec fn wf(self) -> bool {
        temp_name_of(self.published_name) == Some(self.temporary_name)
    }
}

/// One resource of the cache: where it is fetched from, if anywhere, and
/// the names of its two files. Fixed once made.
#[derive(Debug)]
pub struct ResourceSpec {
    kind: LinkType,
    source_url: Option<String>,
    published_name: String,
    temporary_name: String,
}

impl View for ResourceSpec {
    type V = ResourceView;

    closed spec fn view(&self) -> ResourceView {
        ResourceView {
            kind: self.kind,
            source_url: text_of(self.source_url),
            published_name: self.published_name@,
            temporary_name: self.temporary_name@,
        }
    }
}

impl ResourceSpec {
    /// Every resource has the temporary name that belongs to its published
    /// name.
    #[verifier::type_invariant]
    pub open spec fn wf(self) -> bool {
        self@.wf()
    }

    /// The resource of kind `kind` that is fetched from `source_url` and
    /// published as `published_name`. A published name without a dot is
    /// refused.
    pub fn new(kind: LinkType, source_url: Option<String>, published_name: &str) -> (made: Result<
        ResourceSpec,
        MalformedName,
    >)
        ensures
            made is Ok <==> published_name@.contains('.'),
            made matches Ok(resource) ==> resource.wf() && resource@.kind == kind
                && resource@.published_name == published_name@ && resource@.source_url
                == text_of(source_url),
    {
        match temporary_name(published_name) {
            Ok(temporary_name) => Ok(
                ResourceSpec {
                    kind,
                    source_url,
                    published_name: String::from_str(published_name),
                    temporary_name,
                },
            ),
            Err(e) => Err(e),
        }
    }

    /// The resource of kind `kind` under the name that the kind is
    /// published as.
    pub fn of_kind(kind: LinkType, source_url: Option<String>) -> (resource: ResourceSpec)
        ensures
            resource.wf(),
            resource@.kind == kind,
            resource@.published_name == kind.published(),
            resource@.source_url == text_of(source_url),
    {
        proof {
            kind.lemma_published_has_dot();
        }
        match ResourceSpec::new(kind, source_url, kind.file_name()) {
            Ok(resource) => resource,
            Err(_) => vstd::pervasive::unreached(),
        }
    }

    /// The kind of the resource.
    pub fn kind(&self) -> (kind: LinkType)
        ensures
            kind == self@.kind,
    {
        self.kind
    }

    /// Where the resource is fetched from, if anywhere.
    pub fn source_url(&self) -> (url: Option<&str>)
        ensures
            url is Some <==> self@.source_url is Some,
            url matches Some(u) ==> self@.source_url == Some(u@),
    {
        match &self.source_url {
            Some(url) => Some(url.as_str()),
            None => None,
        }
    }

    /// The name under which the resource is served.
    pub fn published_name(&self) -> (name: &str)
        ensures
            name@ == self@.published_name,
    {
        self.published_name.as_str()
    }

    /// The name of the file that a fetch of the resource writes to.
    pub fn temporary_name(&self) -> (name: &str)
        ensures
            name@ == self@.temporary_name,
    {
        self.temporary_name.as_str()
    }
}

} // verus!
