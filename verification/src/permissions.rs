use vstd::prelude::*;
use crate::scope::{Privileges, Scope, SCOPE_COUNT};
use crate::text::{canonical, canonical_identifier, lemma_canonical_idempotent};

verus! {

/// What a `Permissions` value stands for: the repositories in the order in which they
/// were added, and the privilege requested on each scope.
pub struct PermissionsModel {
    pub repositories: Seq<Seq<char>>,
    pub scopes: Map<Scope, Privileges>,
}

/// The characters of each string of a list.
pub open spec fn texts(items: Seq<String>) -> Seq<Seq<char>> {
    items.map_values(|item: String| item@)
}

/// Each identifier of a list in its canonical form.
pub open spec fn canonical_all(identifiers: Seq<Seq<char>>) -> Seq<Seq<char>> {
    identifiers.map_values(|identifier: Seq<char>| canonical_identifier(identifier))
}

impl PermissionsModel {
    /// No repository and no scope.
    pub open spec fn empty() -> PermissionsModel {
        PermissionsModel { repositories: Seq::empty(), scopes: Map::empty() }
    }

    /// Every repository identifier is in canonical form.
    pub open spec fn valid(self) -> bool {
        forall|i: int|
            0 <= i < self.repositories.len() ==> canonical_identifier(
                #[trigger] self.repositories[i],
            ) == self.repositories[i]
    }

    /// The model after the identifiers were appended, each in canonical form.
    pub open spec fn add_repositories(self, identifiers: Seq<Seq<char>>) -> PermissionsModel {
        PermissionsModel {
            repositories: self.repositories + canonical_all(identifiers),
            scopes: self.scopes,
        }
    }

    /// The model after the pairs were entered one by one, a later pair replacing an
    /// earlier one on the same scope.
    pub open spec fn add_scopes(self, pairs: Seq<(Scope, Privileges)>) -> PermissionsModel
        decreases pairs.len(),
    {
        if pairs.len() == 0 {
            self
        } else {
            let before = self.add_scopes(pairs.drop_last());
            PermissionsModel {
                repositories: before.repositories,
                scopes: before.scopes.insert(pairs.last().0, pairs.last().1),
            }
        }
    }

    /// Appending identifiers keeps a valid model valid.
    pub proof fn lemma_add_repositories_valid(self, identifiers: Seq<Seq<char>>)
        requires
            self.valid(),
        ensures
            self.add_repositories(identifiers).valid(),
    {
        let after = self.add_repositories(identifiers);
        assert forall|i: int| 0 <= i < after.repositories.len() implies canonical_identifier(
            #[trigger] after.repositories[i],
        ) == after.repositories[i] by {
            if i >= self.repositories.len() {
                lemma_canonical_idempotent(identifiers[i - self.repositories.len()]);
            }
        }
    }

    /// Starting from nothing, the repository list is exactly the canonical forms of the
    /// identifiers, in the order given and with repetitions kept.
    pub proof fn lemma_repositories_from_empty(identifiers: Seq<Seq<char>>)
        ensures
            PermissionsModel::empty().add_repositories(identifiers).repositories == canonical_all(
                identifiers,
            ),
            PermissionsModel::empty().add_repositories(identifiers).repositories.len()
                == identifiers.len(),
    {
        assert(Seq::<Seq<char>>::empty() + canonical_all(identifiers) =~= canonical_all(
            identifiers,
        ));
    }

    /// Appending in two steps is appending the concatenation in one.
    pub proof fn lemma_add_repositories_twice(
        self,
        first: Seq<Seq<char>>,
        second: Seq<Seq<char>>,
    )
        ensures
            self.add_repositories(first).add_repositories(second) == self.add_repositories(
                first + second,
            ),
    {
        assert(canonical_all(first) + canonical_all(second) =~= canonical_all(first + second));
        assert((self.repositories + canonical_all(first)) + canonical_all(second)
            =~= self.repositories + canonical_all(first + second));
    }

    /// The model after several lists of identifiers were appended, one list after the
    /// other.
    pub open spec fn add_each(self, lists: Seq<Seq<Seq<char>>>) -> PermissionsModel
        decreases lists.len(),
    {
        if lists.len() == 0 {
            self
        } else {
            self.add_each(lists.drop_last()).add_repositories(lists.last())
        }
    }

    /// However many lists are appended, the repositories are what they were, followed
    /// by the canonical form of every identifier of every list, in the order given and
    /// with repetitions kept.
    pub proof fn lemma_repositories_of_calls(self, lists: Seq<Seq<Seq<char>>>)
        ensures
            self.add_each(lists).repositories == self.repositories + canonical_all(
                lists.flatten(),
            ),
            self.add_each(lists).scopes == self.scopes,
        decreases lists.len(),
    {
        if lists.len() == 0 {
            assert(lists.flatten() =~= Seq::empty());
            assert(self.repositories + canonical_all(lists.flatten()) =~= self.repositories);
        } else {
            let front = lists.drop_last();
            self.lemma_repositories_of_calls(front);
            assert(lists =~= front.push(lists.last()));
            front.lemma_flatten_push(lists.last());
            assert(canonical_all(front.flatten() + lists.last()) =~= canonical_all(front.flatten())
                + canonical_all(lists.last()));
            assert(self.add_each(lists).repositories =~= self.repositories + canonical_all(
                lists.flatten(),
            ));
        }
    }

    /// Entering scopes touches no repository.
    pub proof fn lemma_add_scopes_keeps_repositories(self, pairs: Seq<(Scope, Privileges)>)
        ensures
            self.add_scopes(pairs).repositories == self.repositories,
        decreases pairs.len(),
    {
        if pairs.len() > 0 {
            self.lemma_add_scopes_keeps_repositories(pairs.drop_last());
        }
    }

    /// Entering pairs in two steps is entering the concatenation in one.
    pub proof fn lemma_add_scopes_twice(
        self,
        first: Seq<(Scope, Privileges)>,
        second: Seq<(Scope, Privileges)>,
    )
        ensures
            self.add_scopes(first).add_scopes(second) == self.add_scopes(first + second),
        decreases second.len(),
    {
        if second.len() == 0 {
            assert(first + second =~= first);
        } else {
            self.lemma_add_scopes_twice(first, second.drop_last());
            assert((first + second).drop_last() =~= first + second.drop_last());
        }
    }

    /// After pairs were entered, a scope holds the privilege of the last pair that names
    /// it, and what it held before where no pair names it.
    pub proof fn lemma_add_scopes_last_wins(self, pairs: Seq<(Scope, Privileges)>, scope: Scope)
        ensures
            (forall|i: int| 0 <= i < pairs.len() ==> (#[trigger] pairs[i]).0 != scope) ==> (
            self.add_scopes(pairs).scopes.contains_key(scope) == self.scopes.contains_key(scope)
                && (self.scopes.contains_key(scope) ==> self.add_scopes(pairs).scopes[scope]
                == self.scopes[scope])),
            forall|i: int|
                0 <= i < pairs.len() && (#[trigger] pairs[i]).0 == scope && (forall|j: int|
                    i < j < pairs.len() ==> (#[trigger] pairs[j]).0 != scope) ==> self.add_scopes(
                    pairs,
                ).scopes.contains_key(scope) && self.add_scopes(pairs).scopes[scope] == pairs[i].1,
        decreases pairs.len(),
    {
        if pairs.len() > 0 {
            let front = pairs.drop_last();
            self.lemma_add_scopes_last_wins(front, scope);
            assert forall|i: int|
                0 <= i < pairs.len() && (#[trigger] pairs[i]).0 == scope && (forall|j: int|
                    i < j < pairs.len() ==> (#[trigger] pairs[j]).0
                        != scope) implies self.add_scopes(pairs).scopes.contains_key(scope)
                && self.add_scopes(pairs).scopes[scope] == pairs[i].1 by {
                if i < pairs.len() - 1 {
                    assert(pairs[pairs.len() - 1].0 != scope);
                    assert(front[i] == pairs[i]);
                    assert forall|j: int| i < j < front.len() implies (#[trigger] front[j]).0
                        != scope by {
                        assert(front[j] == pairs[j]);
                    }
                }
            }
            if forall|i: int| 0 <= i < pairs.len() ==> (#[trigger] pairs[i]).0 != scope {
                assert(pairs[pairs.len() - 1].0 != scope);
                assert forall|i: int| 0 <= i < front.len() implies (#[trigger] front[i]).0
                    != scope by {
                    assert(front[i] == pairs[i]);
                }
            }
        }
    }
}

/// The scopes map that a table of privileges, indexed by rank, stands for.
pub open spec fn table_scopes(table: Seq<Option<Privileges>>) -> Map<Scope, Privileges> {
    Map::new(
        |scope: Scope| table[scope.rank() as int] is Some,
        |scope: Scope| table[scope.rank() as int]->0,
    )
}

/// A narrowing of the token that is asked for: to some repositories, to some scopes, or both.
#[derive(Debug, PartialEq, Eq)]
pub struct Permissions {
    repositories: Vec<String>,
    scopes: Vec<Option<Privileges>>,
}

impl View for Permissions {
    type V = PermissionsModel;

    closed spec fn view(&self) -> PermissionsModel {
        PermissionsModel {
            repositories: texts(self.repositories@),
            scopes: table_scopes(self.scopes@),
        }
    }
}

impl Clone for Permissions {
    fn clone(&self) -> (copy: Permissions)
        ensures
            copy@ == self@,
    {
        proof {
            use_type_invariant(self);
        }
        let mut repositories: Vec<String> = Vec::new();
        let mut i: usize = 0;
        while i < self.repositories.len()
            invariant
                i <= self.repositories@.len(),
                repositories@ == self.repositories@.take(i as int),
            decreases self.repositories@.len() - i,
        {
            repositories.push(self.repositories[i].clone());
            assert(repositories@ =~= self.repositories@.take(i + 1));
            i += 1;
        }
        let mut scopes: Vec<Option<Privileges>> = Vec::new();
        let mut rank: usize = 0;
        while rank < self.scopes.len()
            invariant
                rank <= self.scopes@.len(),
                scopes@ == self.scopes@.take(rank as int),
            decreases self.scopes@.len() - rank,
        {
            scopes.push(self.scopes[rank]);
            assert(scopes@ =~= self.scopes@.take(rank + 1));
            rank += 1;
        }
        assert(repositories@ =~= self.repositories@);
        assert(scopes@ =~= self.scopes@);
        Permissions { repositories, scopes }
    }
}

impl Default for Permissions {
    fn default() -> (permissions: Permissions)
        ensures
            permissions@ == PermissionsModel::empty(),
    {
        Permissions::new()
    }
}

impl Permissions {
    /// What holds of every value of the type: one table entry for each scope, and every
    /// repository identifier in canonical form.
    #[verifier::type_invariant]
    pub closed spec fn well_formed(self) -> bool {
        &&& self.scopes@.len() == SCOPE_COUNT
        &&& forall|i: int|
            0 <= i < self.repositories@.len() ==> canonical_identifier(
                (#[trigger] self.repositories@[i])@,
            ) == self.repositories@[i]@
    }

    pub fn new() -> (permissions: Permissions)
        ensures
            permissions@ == PermissionsModel::empty(),
    {
        let mut scopes: Vec<Option<Privileges>> = Vec::new();
        let mut rank: u8 = 0;
        while rank < SCOPE_COUNT
            invariant
                rank <= SCOPE_COUNT,
                scopes@.len() == rank,
                forall|i: int| 0 <= i < rank ==> scopes@[i] is None,
            decreases SCOPE_COUNT - rank,
        {
            scopes.push(None);
            rank += 1;
        }
        let permissions = Permissions { repositories: Vec::new(), scopes };
        assert(permissions@.repositories =~= Seq::empty());
        assert(permissions@.scopes =~= Map::empty());
        permissions
    }

    pub fn new_with_repositories(repositories: &[String]) -> (permissions: Permissions)
        ensures
            permissions@ == PermissionsModel::empty().add_repositories(texts(repositories@)),
    {
        Permissions::new().with_repositories(repositories)
    }

    pub fn new_with_scopes(scopes: &[(Scope, Privileges)]) -> (permissions: Permissions)
        ensures
            permissions@ == PermissionsModel::empty().add_scopes(scopes@),
    {
        Permissions::new().with_scopes(scopes)
    }

    pub fn with_repositories(self, identifiers: &[String]) -> (permissions: Permissions)
        ensures
            permissions@ == self@.add_repositories(texts(identifiers@)),
    {
        proof {
            use_type_invariant(&self);
        }
        let ghost before = texts(self.repositories@);
        let ghost added = canonical_all(texts(identifiers@));
        let mut repositories = self.repositories;
        let mut i: usize = 0;
        while i < identifiers.len()
            invariant
                i <= identifiers@.len(),
                before + added.take(i as int) == texts(repositories@),
                added == canonical_all(texts(identifiers@)),
                forall|k: int|
                    0 <= k < repositories@.len() ==> canonical_identifier(
                        (#[trigger] repositories@[k])@,
                    ) == repositories@[k]@,
            decreases identifiers@.len() - i,
        {
            let cut = canonical(identifiers[i].as_str());
            proof {
                lemma_canonical_idempotent(identifiers@[i as int]@);
                assert(added[i as int] == cut@);
                assert(added.take(i + 1) =~= added.take(i as int).push(cut@));
                assert(texts(repositories@.push(cut)) =~= texts(repositories@).push(cut@));
            }
            repositories.push(cut);
            i += 1;
        }
        assert(added.take(i as int) =~= added);
        Permissions { repositories, scopes: self.scopes }
    }

    pub fn with_scopes(self, scopes: &[(Scope, Privileges)]) -> (permissions: Permissions)
        ensures
            permissions@ == self@.add_scopes(scopes@),
    {
        proof {
            use_type_invariant(&self);
            self@.lemma_add_scopes_keeps_repositories(scopes@);
        }
        let ghost start = self@;
        let mut table = self.scopes;
        let mut i: usize = 0;
        assert(scopes@.take(0) =~= Seq::empty());
        while i < scopes.len()
            invariant
                i <= scopes@.len(),
                table@.len() == SCOPE_COUNT,
                table_scopes(table@) == start.add_scopes(scopes@.take(i as int)).scopes,
            decreases scopes@.len() - i,
        {
            let (scope, privilege) = scopes[i];
            let rank = scope.ordinal();
            proof {
                let now = scopes@.take(i + 1);
                assert(now.drop_last() =~= scopes@.take(i as int));
                assert(now.last() == scopes@[i as int]);
                assert forall|other: Scope| other.rank() == scope.rank() implies other
                    == scope by {
                    Scope::lemma_rank_injective(other, scope);
                }
                assert(table_scopes(table@.update(rank as int, Some(privilege))) =~= table_scopes(
                    table@,
                ).insert(scope, privilege));
            }
            table.set(rank as usize, Some(privilege));
            i += 1;
        }
        assert(scopes@.take(i as int) =~= scopes@);
        Permissions { repositories: self.repositories, scopes: table }
    }

    /// The repository identifiers, in the order in which they were added.
    pub fn repositories(&self) -> (list: &Vec<String>)
        ensures
            texts(list@) == self@.repositories,
    {
        &self.repositories
    }

    /// The privilege requested on a scope, if one was.
    pub fn privilege(&self, scope: Scope) -> (found: Option<Privileges>)
        ensures
            found == if self@.scopes.contains_key(scope) {
                Some(self@.scopes[scope])
            } else {
                None
            },
    {
        proof {
            use_type_invariant(self);
        }
        self.scopes[scope.ordinal() as usize]
    }

    /// What every value of the type stands for is a valid model.
    pub proof fn lemma_view_valid(self)
        requires
            self.well_formed(),
        ensures
            self@.valid(),
    {
    }
}

} // verus!
