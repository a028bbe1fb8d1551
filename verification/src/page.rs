//! Pages: their metadata, and what a page is given for it.

use vstd::prelude::*;
use vstd::string::StringSliceAdditionalSpecFns;
use crate::front_matter::{front_matter, lemma_rest_is_shorter, FrontMatter};
use crate::modify::Modify;

verus! {

/// The metadata of a page, as its front matter gives it. `D` is the type of
/// a date.
#[derive(Debug, Clone, PartialEq, Eq, Hash, Default)]
pub struct PageMatter<D> {
    /// The title of the page.
    pub title: String,
    /// The description of the page.
    pub description: String,
    /// The slug of the page.
    pub slug: Option<String>,
    /// A list of keywords.
    pub keywords: Vec<String>,
    /// Whether the page is a draft.
    pub draft: bool,
    /// When the page was created.
    pub created: Option<D>,
    /// When the page was last modified.
    pub modified: Option<D>,
}

/// The title of a page.
#[derive(Debug, Clone, PartialEq, Eq, PartialOrd, Ord, Hash, Default)]
pub struct Title(pub String);

/// The description of a page.
#[derive(Debug, Clone, PartialEq, Eq, PartialOrd, Ord, Hash, Default)]
pub struct Description(pub String);

/// The slug of a page.
#[derive(Debug, Clone, PartialEq, Eq, PartialOrd, Ord, Hash, Default)]
pub struct Slug(pub String);

/// The keywords of a page.
#[derive(Debug, Clone, PartialEq, Eq, PartialOrd, Ord, Hash, Default)]
pub struct Keywords(pub Vec<String>);

/// Marks a page as a draft.
#[derive(Debug, Clone, Copy, PartialEq, Eq, PartialOrd, Ord, Hash, Default)]
pub struct Draft;

/// When a page was created.
#[derive(Debug, Clone, Copy, PartialEq, Eq, PartialOrd, Ord, Hash, Default)]
pub struct Created<D>(pub D);

/// When a page was last modified.
#[derive(Debug, Clone, Copy, PartialEq, Eq, PartialOrd, Ord, Hash, Default)]
pub struct Modified<D>(pub D);

/// Marks an entity as a page.
#[derive(Debug, Clone, Copy, PartialEq, Eq, PartialOrd, Ord, Hash, Default)]
pub struct Page;

/// How many bytes from the start of a page's input its body starts.
#[derive(Debug, Clone, Copy, PartialEq, Eq, PartialOrd, Ord, Hash, Default)]
pub struct PageOffset(pub usize);

/// Where the metadata of a page is to be had.
#[derive(Debug, Clone, Copy, PartialEq, Eq)]
pub enum MatterSource<'a> {
    /// The page has no front matter: its metadata is the default.
    Absent,
    /// The front matter is TOML, to be parsed.
    Toml(&'a str),
    /// The front matter is in a language that is not known.
    Unknown(&'a str),
}

/// The bytes of `toml`.
pub open spec fn toml_name() -> Seq<u8> {
    seq![0x74u8, 0x6fu8, 0x6du8, 0x6cu8]
}

/// Tells whether `name` is `toml`.
pub fn is_toml(name: &[u8]) -> (r: bool)
    ensures
        r == (name@ == toml_name()),
{
    let r = name.len() == 4 && name[0] == 0x74 && name[1] == 0x6f && name[2] == 0x6d && name[3]
        == 0x6c;
    proof {
        if r {
            assert(name@ =~= toml_name());
        }
    }
    r
}

/// Finds where the body of a page starts and where its metadata is to be
/// had. Front matter that names no language, or `toml`, is TOML.
pub fn split_matter<'a>(contents: &'a str) -> (r: (PageOffset, MatterSource<'a>))
    ensures
        match front_matter(contents.spec_bytes()) {
            None => r.0.0 == 0 && r.1 == MatterSource::<'a>::Absent,
            Some(found) => {
                &&& r.0.0 == contents.spec_bytes().len() - found.rest.len()
                &&& match found.language {
                    Some(language) if language != toml_name() => {
                        r.1 matches MatterSource::Unknown(name) && name.spec_bytes() == language
                    },
                    _ => r.1 matches MatterSource::Toml(content) && content.spec_bytes()
                        == found.content,
                }
            },
        },
{
    match FrontMatter::parse(contents) {
        Err(_) => (PageOffset(0), MatterSource::Absent),
        Ok(matter) => {
            proof {
                lemma_rest_is_shorter(contents.spec_bytes());
            }
            let offset = PageOffset(contents.as_bytes().len() - matter.rest.as_bytes().len());
            let source = match matter.language {
                None => MatterSource::Toml(matter.content),
                Some(language) => if is_toml(language.as_bytes()) {
                    MatterSource::Toml(matter.content)
                } else {
                    MatterSource::Unknown(language)
                },
            };
            (offset, source)
        },
    }
}

/// What a page is given for its metadata: what is always there, and what is
/// inserted or removed.
pub struct PageComponents<D> {
    pub title: Title,
    pub description: Description,
    pub keywords: Keywords,
    pub offset: PageOffset,
    pub draft: Modify<Draft>,
    pub slug: Modify<Slug>,
    pub created: Modify<Created<D>>,
    pub modified: Modify<Modified<D>>,
}

/// Turns the metadata of a page into what the page is given: a draft mark
/// only for a draft, and a slug and dates only where the metadata has them.
pub fn page_components<D>(matter: PageMatter<D>, offset: PageOffset) -> (r: PageComponents<D>)
    ensures
        r.title.0 == matter.title,
        r.description.0 == matter.description,
        r.keywords.0 == matter.keywords,
        r.offset == offset,
        r.draft == (if matter.draft {
            Modify::Insert(Draft)
        } else {
            Modify::Remove
        }),
        r.slug == (match matter.slug {
            Some(slug) => Modify::Insert(Slug(slug)),
            None => Modify::Remove,
        }),
        r.created == (match matter.created {
            Some(date) => Modify::Insert(Created(date)),
            None => Modify::Remove,
        }),
        r.modified == (match matter.modified {
            Some(date) => Modify::Insert(Modified(date)),
            None => Modify::Remove,
        }),
{
    let PageMatter { title, description, slug, keywords, draft, created, modified } = matter;
    PageComponents {
        title: Title(title),
        description: Description(description),
        keywords: Keywords(keywords),
        offset,
        draft: Modify::insert_if(draft, Draft),
        slug: Modify::insert_some(
            match slug {
                Some(slug) => Some(Slug(slug)),
                None => None,
            },
        ),
        created: Modify::insert_some(
            match created {
                Some(date) => Some(Created(date)),
                None => None,
            },
        ),
        modified: Modify::insert_some(
            match modified {
                Some(date) => Some(Modified(date)),
                None => None,
            },
        ),
    }
}

} // verus!
