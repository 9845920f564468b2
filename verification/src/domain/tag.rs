//! Tag: hierarchical metadata for notes and fragments.
//!
//! Tags form a tree through `parent_tag_id` and carry a materialized path of
//! slugs (`path_cached`, such as `math/calculus`).
use vstd::prelude::*;

use super::fragment::FragmentId;
use super::Timestamp;
use crate::text::{push_all, str_eq};

verus! {

/// Identifier of a tag.
#[derive(Debug, Clone, Copy, PartialEq, Eq, Hash, Structural)]
pub struct TagId(pub i64);

impl From<i64> for TagId {
    fn from(v: i64) -> (r: Self) {
        TagId(v)
    }
}

impl vstd::std_specs::convert::FromSpecImpl<i64> for TagId {
    open spec fn obeys_from_spec() -> bool {
        true
    }

    open spec fn from_spec(v: i64) -> Self {
        TagId(v)
    }
}

/// A tag of the hierarchy.
#[derive(Debug, Clone)]
pub struct Tag {
    pub tag_id: TagId,
    pub parent_tag_id: Option<TagId>,
    /// Display name, such as "Data Science".
    pub name: String,
    /// URL-friendly name, such as "data-science".
    pub slug: String,
    pub color: Option<String>,
    pub icon: Option<String>,
    /// 0 for root tags.
    pub depth: i64,
    /// Slugs from the root down to this tag, joined with `/`.
    pub path_cached: String,
    pub description: Option<String>,
    pub created_at: Timestamp,
    pub updated_at: Timestamp,
}

/// The path of a tag under a parent with path `parent_path`.
pub open spec fn tag_path(parent_path: Option<Seq<char>>, slug: Seq<char>) -> Seq<char> {
    match parent_path {
        None => slug,
        Some(pp) => if pp.len() == 0 {
            slug
        } else {
            pp + "/"@ + slug
        },
    }
}

/// The depth of a tag under a parent of depth `parent_depth`.
pub open spec fn tag_depth(parent_depth: Option<i64>) -> int {
    match parent_depth {
        Some(d) => d + 1,
        None => 0,
    }
}

impl Tag {
    /// The cached path of a tag from its parent's path and its own slug; an
    /// empty parent path counts as no parent.
    pub fn compute_path(parent_path: Option<&str>, slug: &str) -> (r: String)
        ensures
            r@ == tag_path(
                match parent_path {
                    Some(p) => Some(p@),
                    None => None,
                },
                slug@,
            ),
    {
        match parent_path {
            None => slug.to_owned(),
            Some(pp) => {
                if pp.is_empty() {
                    slug.to_owned()
                } else {
                    let mut out = pp.to_owned();
                    push_all(&mut out, "/");
                    push_all(&mut out, slug);
                    out
                }
            },
        }
    }

    /// The depth of a tag from its parent's depth: one more, or 0 for a root.
    pub fn compute_depth(parent_depth: Option<i64>) -> (r: i64)
        requires
            parent_depth matches Some(d) ==> d < i64::MAX,
        ensures
            r == tag_depth(parent_depth),
    {
        match parent_depth {
            Some(d) => d + 1,
            None => 0,
        }
    }
}

/// A child's path extends its parent's non-empty path by `/` and the child's
/// slug, and a child is one level deeper than its parent.
pub proof fn lemma_child_path_extends_parent(parent_path: Seq<char>, slug: Seq<char>, parent_depth: i64)
    requires
        parent_path.len() > 0,
    ensures
        tag_path(Some(parent_path), slug).subrange(0, parent_path.len() as int) == parent_path,
        tag_path(Some(parent_path), slug).len() == parent_path.len() + 1 + slug.len(),
        tag_path(Some(parent_path), slug)[parent_path.len() as int] == '/',
        tag_depth(Some(parent_depth)) == tag_depth(None) + parent_depth + 1,
{
    reveal_strlit("/");
    assert("/"@.len() == 1 && "/"@[0] == '/');
    let p = tag_path(Some(parent_path), slug);
    assert(p =~= parent_path + "/"@ + slug);
    assert(p.subrange(0, parent_path.len() as int) =~= parent_path);
}

/// Payload for creating a tag.
#[derive(Debug, Clone)]
pub struct NewTag {
    pub parent_tag_id: Option<TagId>,
    pub name: String,
    pub slug: String,
    pub color: Option<String>,
    pub icon: Option<String>,
    pub description: Option<String>,
}

impl Default for NewTag {
    fn default() -> (r: Self)
        ensures
            r.parent_tag_id is None,
            r.name@ == Seq::<char>::empty(),
            r.slug@ == Seq::<char>::empty(),
            r.color is None,
            r.icon is None,
            r.description is None,
    {
        NewTag {
            parent_tag_id: None,
            name: String::new(),
            slug: String::new(),
            color: None,
            icon: None,
            description: None,
        }
    }
}

/// How a tag was applied to an entity.
#[derive(Debug, Clone, Copy, PartialEq, Eq, Structural)]
pub enum TagSource {
    /// Applied by the user.
    Manual,
    /// Applied by an AI model.
    Ai,
    /// Inherited from a parent resource.
    Inherited,
}

impl TagSource {
    /// The stored name of the source.
    pub open spec fn name(self) -> Seq<char> {
        match self {
            TagSource::Manual => "manual"@,
            TagSource::Ai => "ai"@,
            TagSource::Inherited => "inherited"@,
        }
    }

    /// The source whose stored name is `s`, if any.
    pub open spec fn from_name(s: Seq<char>) -> Option<TagSource> {
        if s == "manual"@ {
            Some(TagSource::Manual)
        } else if s == "ai"@ {
            Some(TagSource::Ai)
        } else if s == "inherited"@ {
            Some(TagSource::Inherited)
        } else {
            None
        }
    }

    /// The stored name of the source (what its textual form shows).
    pub fn as_str(&self) -> (r: &'static str)
        ensures
            r@ == self.name(),
    {
        match self {
            TagSource::Manual => "manual",
            TagSource::Ai => "ai",
            TagSource::Inherited => "inherited",
        }
    }

    /// Reads a stored source name; an unknown name is an error naming it.
    pub fn parse(s: &str) -> (r: Result<Self, String>)
        ensures
            match Self::from_name(s@) {
                Some(t) => r == Ok::<TagSource, String>(t),
                None => r matches Err(m) && m@ == "Unknown tag source: "@ + s@,
            },
    {
        if str_eq(s, "manual") {
            Ok(TagSource::Manual)
        } else if str_eq(s, "ai") {
            Ok(TagSource::Ai)
        } else if str_eq(s, "inherited") {
            Ok(TagSource::Inherited)
        } else {
            let mut m = "Unknown tag source: ".to_owned();
            push_all(&mut m, s);
            Err(m)
        }
    }
}

/// Reading the stored name of a tag source gives the source back.
pub proof fn lemma_tag_source_round_trip(t: TagSource)
    ensures
        TagSource::from_name(t.name()) == Some(t),
        forall|name: Seq<char>| #[trigger] TagSource::from_name(name) matches Some(x) ==> x.name() == name,
{
    reveal_strlit("manual");
    reveal_strlit("ai");
    reveal_strlit("inherited");
    assert("manual"@.len() == 6 && "manual"@[0] == 'm');
    assert("ai"@.len() == 2 && "ai"@[0] == 'a');
    assert("inherited"@.len() == 9 && "inherited"@[0] == 'i');
}

/// Links a fragment to a tag.
#[derive(Debug, Clone)]
pub struct FragmentTagRelation {
    pub fragment_id: FragmentId,
    pub tag_id: TagId,
    pub source: TagSource,
    pub created_at: Timestamp,
}

} // verus!
