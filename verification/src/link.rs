//! The link entity: a collaborator with routing labels, an optional display
//! name, a remote repository reference and an optional account scope.

use vstd::prelude::*;
use crate::textutil::{lower, to_lower, push_char};

verus! {

/// Mathematical model of one link.
#[verifier::ext_equal]
pub ghost struct LinkView {
    /// Unique key of the link, also its section name in the registry file.
    pub id: Seq<char>,
    /// Routing labels, in order.
    pub labels: Seq<Seq<char>>,
    /// Remote repository reference; empty means "derive from the owner".
    pub repo: Seq<char>,
    /// Optional human label; empty defaults to the id.
    pub name: Seq<char>,
    /// Optional account scope; empty means unscoped.
    pub account: Seq<char>,
}

/// One registered link.  `github_user` is the unique id; the remaining
/// fields are the persisted metadata.
pub struct Collaborator {
    pub labels: Vec<String>,
    pub repo: String,
    pub github_user: String,
    pub name: String,
    pub account: String,
}

impl View for Collaborator {
    type V = LinkView;

    open spec fn view(&self) -> LinkView {
        LinkView {
            id: self.github_user@,
            labels: self.labels.deep_view(),
            repo: self.repo@,
            name: self.name@,
            account: self.account@,
        }
    }
}

impl DeepView for Collaborator {
    type V = LinkView;

    open spec fn deep_view(&self) -> LinkView {
        self.view()
    }
}

/// A text that can stand between double quotes in the registry file:
/// it contains no quote and no newline.
pub open spec fn quotable(s: Seq<char>) -> bool {
    !s.contains('"') && !s.contains('\n')
}

impl LinkView {
    /// A link the registry file can carry faithfully: the id is a non-empty
    /// single line, and every text field is quotable.
    pub open spec fn wf(self) -> bool {
        &&& self.id.len() > 0
        &&& !self.id.contains('\n')
        &&& forall|i: int| 0 <= i < self.labels.len() ==> quotable(#[trigger] self.labels[i])
        &&& quotable(self.repo)
        &&& quotable(self.name)
        &&& quotable(self.account)
    }

    /// The display name: the explicit name, or the id when none is set.
    pub open spec fn display(self) -> Seq<char> {
        if self.name.len() == 0 {
            self.id
        } else {
            self.name
        }
    }
}

impl Collaborator {
    /// The display name of this link.
    pub fn display_name(&self) -> (r: &String)
        ensures
            r@ == self@.display(),
    {
        if self.name.as_str().is_empty() {
            &self.github_user
        } else {
            &self.name
        }
    }

    /// An equal link, field for field.
    pub fn duplicate(&self) -> (r: Collaborator)
        ensures
            r@ == self@,
    {
        let mut labels: Vec<String> = Vec::new();
        let mut i: usize = 0;
        proof {
            assert(labels.deep_view() =~~= self.labels.deep_view().subrange(0, 0));
        }
        while i < self.labels.len()
            invariant
                0 <= i <= self.labels.len(),
                labels.deep_view() == self.labels.deep_view().subrange(0, i as int),
            decreases self.labels.len() - i,
        {
            proof {
                assert(labels.deep_view().len() == labels@.len());
                assert(labels@.len() == i);
            }
            let cl = self.labels[i].clone();
            labels.push(cl);
            proof {
                assert(labels.deep_view() =~~= self.labels.deep_view().subrange(0, i + 1 as int));
            }
            i += 1;
        }
        proof {
            assert(self.labels.deep_view().subrange(0, self.labels.len() as int)
                =~= self.labels.deep_view());
        }
        let r = Collaborator {
            labels,
            repo: self.repo.clone(),
            github_user: self.github_user.clone(),
            name: self.name.clone(),
            account: self.account.clone(),
        };
        r
    }
}

/// What `auto_repo` returns: `{owner}/to-{id lower-cased}`.
pub open spec fn auto_repo_spec(owner: Seq<char>, id: Seq<char>) -> Seq<char> {
    owner + "/to-"@ + lower(id)
}

/// Derive the default repository reference for a link id under an owner.
pub fn auto_repo(owner_gh: &str, collab_gh: &str) -> (r: String)
    ensures
        r@ == auto_repo_spec(owner_gh@, collab_gh@),
{
    let mut r = String::from_str(owner_gh);
    r.append("/to-");
    let low = to_lower(collab_gh);
    r.append(low.as_str());
    r
}

/// What `collab_dir` returns: `{data}/collabs/{id lower-cased}/to`.
pub open spec fn collab_dir_spec(data: Seq<char>, id: Seq<char>) -> Seq<char> {
    data + "/collabs/"@ + lower(id) + "/to"@
}

/// The working-copy directory of a link, under a data directory.
pub fn collab_dir(data_dir: &str, collab: &Collaborator) -> (r: String)
    ensures
        r@ == collab_dir_spec(data_dir@, collab@.id),
{
    let mut r = String::from_str(data_dir);
    r.append("/collabs/");
    let low = to_lower(collab.github_user.as_str());
    r.append(low.as_str());
    r.append("/to");
    r
}

/// The two candidate on-disk directories of a link id, in probe order:
/// `{data}/collabs/{id lower-cased}/to`, then the same with `/from`.
pub fn collab_dir_candidates(data_dir: &str, name: &str) -> (r: (String, String))
    ensures
        r.0@ == collab_dir_spec(data_dir@, name@),
        r.1@ == data_dir@ + "/collabs/"@ + lower(name@) + "/from"@,
{
    let low = to_lower(name);
    let mut a = String::from_str(data_dir);
    a.append("/collabs/");
    a.append(low.as_str());
    a.append("/to");
    let mut b = String::from_str(data_dir);
    b.append("/collabs/");
    b.append(low.as_str());
    b.append("/from");
    (a, b)
}

/// Which of the two candidate directories (see `collab_dir_candidates`) a
/// link's working copy stands in, given which of them exist on disk; the
/// `to` directory wins when both do.
pub fn find_collab_dir(
    data_dir: &str,
    name: &str,
    to_exists: bool,
    from_exists: bool,
) -> (r: Option<String>)
    ensures
        to_exists ==> (r matches Some(p) && p@ == collab_dir_spec(data_dir@, name@)),
        !to_exists && from_exists ==> (r matches Some(p) && p@ == data_dir@ + "/collabs/"@
            + lower(name@) + "/from"@),
        !to_exists && !from_exists ==> r is None,
{
    let (to_dir, from_dir) = collab_dir_candidates(data_dir, name);
    if to_exists {
        Some(to_dir)
    } else if from_exists {
        Some(from_dir)
    } else {
        None
    }
}

} // verus!
