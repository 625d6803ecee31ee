//! Where the two resources are fetched from, and where the cache is kept
//! and served.

use crate::resource::temp_name_of;
use crate::resource::text_of;
use crate::resource::LinkType;
use crate::resource::ResourceSpec;
use crate::resource::ResourceView;
use vstd::prelude::*;

verus! {

/// The directory that the cache is kept in and served from.
pub const SERVE_DIR: &'static str = "./ilovetv_cache";

/// The address that the cache is served on.
pub const SERVER_ADDR: &'static str = "127.0.0.1:5050";

/// The variable of the environment that names the source of the playlist.
pub const M3U_VAR: &'static str = "M3U";

/// The variable of the environment that names the source of the programme
/// guide.
pub const XML_TV_VAR: &'static str = "XML_TV";

/// Why there is no configuration.
#[derive(Clone, Copy, Debug, PartialEq, Eq)]
pub enum ConfigError {
    /// The source of the playlist is not set.
    MissingM3u,
}

/// The sources, as sequences of characters.
pub struct ILoveTvView {
    pub m3u: Seq<char>,
    pub xml_tv: Option<Seq<char>>,
}

impl ILoveTvView {
    /// The source of the resource of kind `link_type`, if it has one.
    pub open spec fn link(self, link_type: LinkType) -> Option<Seq<char>> {
        match link_type {
            LinkType::M3U => Some(self.m3u),
            LinkType::XmlTv => self.xml_tv,
        }
    }

    /// The resource of kind `link_type`: fetched from the source of that
    /// kind, and kept under the names of that kind.
    pub open spec fn resource(self, link_type: LinkType) -> ResourceView {
        ResourceView {
            kind: link_type,
            source_url: self.link(link_type),
            published_name: link_type.published(),
            temporary_name: temp_name_of(link_type.published())->0,
        }
    }

    /// The resources, one of each kind, in the order in which a cycle
    /// refreshes them.
    pub open spec fn resources(self) -> Seq<ResourceView> {
        LinkType::every().map_values(|link_type: LinkType| self.resource(link_type))
    }
}

/// The sources of the two resources: the playlist's, which is required,
/// and the programme guide's, which may be missing.
#[derive(Debug)]
pub struct ILoveTv {
    m3u: String,
    xml_tv: Option<String>,
}

impl View for ILoveTv {
    type V = ILoveTvView;

    closed spec fn view(&self) -> ILoveTvView {
        ILoveTvView { m3u: self.m3u@, xml_tv: text_of(self.xml_tv) }
    }
}

impl ILoveTv {
    /// The configuration with the playlist fetched from `m3u` and the
    /// programme guide from `xml_tv`. Without a source for the playlist
    /// there is none.
    pub fn new(m3u: Option<String>, xml_tv: Option<String>) -> (made: Result<ILoveTv, ConfigError>)
        ensures
            match m3u {
                Some(url) => made matches Ok(config) && config@ == (ILoveTvView {
                    m3u: url@,
                    xml_tv: text_of(xml_tv),
                }),
                None => made matches Err(ConfigError::MissingM3u),
            },
    {
        match m3u {
            Some(m3u) => Ok(ILoveTv { m3u, xml_tv }),
            None => Err(ConfigError::MissingM3u),
        }
    }

    /// The source of the resource of kind `link_type`, if it has one.
    pub fn link(&self, link_type: LinkType) -> (url: Option<&str>)
        ensures
            url is Some <==> self@.link(link_type) is Some,
            url matches Some(u) ==> self@.link(link_type) == Some(u@),
    {
        match link_type {
            LinkType::M3U => Some(self.m3u.as_str()),
            LinkType::XmlTv => match &self.xml_tv {
                Some(url) => Some(url.as_str()),
                None => None,
            },
        }
    }

    /// The resource of kind `link_type`.
    pub fn resource(&self, link_type: LinkType) -> (resource: ResourceSpec)
        ensures
            resource@ == self@.resource(link_type),
            resource.wf(),
    {
        let source_url = match self.link(link_type) {
            Some(url) => Some(String::from_str(url)),
            None => None,
        };
        ResourceSpec::of_kind(link_type, source_url)
    }

    /// The resources, one of each kind, in the order in which a cycle
    /// refreshes them.
    pub fn resources(&self) -> (resources: Vec<ResourceSpec>)
        ensures
            resources@.map_values(|r: ResourceSpec| r@) == self@.resources(),
            forall|i: int| 0 <= i < resources.len() ==> (#[trigger] resources[i]).wf(),
    {
        let kinds = LinkType::all();
        let mut resources: Vec<ResourceSpec> = Vec::new();
        let mut i: usize = 0;
        while i < kinds.len()
            invariant
                i <= kinds.len(),
                kinds@ == LinkType::every(),
                resources.len() == i,
                forall|j: int|
                    0 <= j < i ==> (#[trigger] resources[j])@ == self@.resource(kinds[j]),
                forall|j: int| 0 <= j < i ==> (#[trigger] resources[j]).wf(),
            decreases kinds.len() - i,
        {
            resources.push(self.resource(kinds[i]));
            i = i + 1;
        }
        resources
    }
}

} // verus!
