//! The resource hierarchy of Google Cloud as Privileged Access Manager sees
//! it: scopes, entitlements and grants.
pub mod entitlements;
pub mod folders;
pub mod grants;
pub mod organizations;
pub mod projects;

use std::str::FromStr;
use vstd::prelude::*;
use vstd::string::*;

verus! {

/// Which level of the resource hierarchy an entitlement is attached to. All
/// three use the parent shape `{plural}/{id}/locations/global`.
#[derive(Debug, Clone, Copy, PartialEq, Eq, Hash, Structural)]
pub enum Scope {
    Project,
    Folder,
    Organization,
}

/// A text that names no scope.
#[derive(Debug)]
pub struct UnknownScope {
    pub name: String,
}

impl UnknownScope {
    /// The error as a sentence.
    pub open spec fn sentence(name: Seq<char>) -> Seq<char> {
        "unknown scope '"@ + name + "'"@
    }

    /// The error as a sentence.
    pub fn message(&self) -> (r: String)
        ensures
            r@ == Self::sentence(self.name@),
    {
        let mut r: String = "unknown scope '".to_owned();
        r.append(self.name.as_str());
        r.append("'");
        r
    }
}

impl Scope {
    /// The first segment of a resource name in this scope.
    pub open spec fn plural_text(self) -> Seq<char> {
        match self {
            Scope::Project => "projects"@,
            Scope::Folder => "folders"@,
            Scope::Organization => "organizations"@,
        }
    }

    /// The tag shown in lists.
    pub open spec fn short_text(self) -> Seq<char> {
        match self {
            Scope::Project => "proj"@,
            Scope::Folder => "fldr"@,
            Scope::Organization => "org"@,
        }
    }

    /// The name a scope is stored under.
    pub open spec fn name_text(self) -> Seq<char> {
        match self {
            Scope::Project => "project"@,
            Scope::Folder => "folder"@,
            Scope::Organization => "organization"@,
        }
    }

    /// The scope a text names: its stored name, its plural, or `org`.
    pub open spec fn named(s: Seq<char>) -> Option<Scope> {
        if s == "project"@ || s == "projects"@ {
            Some(Scope::Project)
        } else if s == "folder"@ || s == "folders"@ {
            Some(Scope::Folder)
        } else if s == "organization"@ || s == "organizations"@ || s == "org"@ {
            Some(Scope::Organization)
        } else {
            None
        }
    }

    pub fn plural(self) -> (r: &'static str)
        ensures
            r@ == self.plural_text(),
            self is Project ==> r@ == "projects"@,
            self is Folder ==> r@ == "folders"@,
            self is Organization ==> r@ == "organizations"@,
    {
        match self {
            Scope::Project => "projects",
            Scope::Folder => "folders",
            Scope::Organization => "organizations",
        }
    }

    pub fn short(self) -> (r: &'static str)
        ensures
            r@ == self.short_text(),
            self is Project ==> r@ == "proj"@,
            self is Folder ==> r@ == "fldr"@,
            self is Organization ==> r@ == "org"@,
    {
        match self {
            Scope::Project => "proj",
            Scope::Folder => "fldr",
            Scope::Organization => "org",
        }
    }

    pub fn as_str(self) -> (r: &'static str)
        ensures
            r@ == self.name_text(),
            self is Project ==> r@ == "project"@,
            self is Folder ==> r@ == "folder"@,
            self is Organization ==> r@ == "organization"@,
    {
        match self {
            Scope::Project => "project",
            Scope::Folder => "folder",
            Scope::Organization => "organization",
        }
    }

    /// The scope's stored name as an owned text.
    pub fn to_string(&self) -> (r: String)
        ensures
            r@ == self.name_text(),
            self is Project ==> r@ == "project"@,
            self is Folder ==> r@ == "folder"@,
            self is Organization ==> r@ == "organization"@,
    {
        self.as_str().to_owned()
    }

    /// Reads a scope's name.
    pub fn parse(s: &str) -> (r: Result<Scope, UnknownScope>)
        ensures
            match r {
                Ok(scope) => Scope::named(s@) == Some(scope),
                Err(e) => Scope::named(s@) is None && e.name@ == s@,
            },
            r matches Ok(scope) ==> s@ == scope.name_text() || s@ == scope.plural_text() || (scope
                == Scope::Organization && s@ == "org"@),
            (s@ == "project"@ || s@ == "projects"@) ==> r == Ok::<Scope, UnknownScope>(Scope::Project),
            (s@ == "folder"@ || s@ == "folders"@) ==> r == Ok::<Scope, UnknownScope>(Scope::Folder),
            (s@ == "organization"@ || s@ == "organizations"@ || s@ == "org"@) ==> r == Ok::<
                Scope,
                UnknownScope,
            >(Scope::Organization),
    {
        proof {
            reveal_strlit("project");
            reveal_strlit("projects");
            reveal_strlit("folder");
            reveal_strlit("folders");
            reveal_strlit("organization");
            reveal_strlit("organizations");
            reveal_strlit("org");
            assert("project"@[0] == 'p' && "folder"@[0] == 'f' && "organization"@[0] == 'o');
            assert("projects"@[0] == 'p' && "folders"@[0] == 'f' && "organizations"@[0] == 'o');
            assert("org"@[0] == 'o');
        }
        if *s == *"project" || *s == *"projects" {
            Ok(Scope::Project)
        } else if *s == *"folder" || *s == *"folders" {
            Ok(Scope::Folder)
        } else if *s == *"organization" || *s == *"organizations" || *s == *"org" {
            Ok(Scope::Organization)
        } else {
            Err(UnknownScope { name: s.to_owned() })
        }
    }

    /// A scope is read back from its stored name and from its plural.
    pub proof fn law_names_read_back(self)
        ensures
            Scope::named(self.name_text()) == Some(self),
            Scope::named(self.plural_text()) == Some(self),
    {
        reveal_strlit("project");
        reveal_strlit("projects");
        reveal_strlit("folder");
        reveal_strlit("folders");
        reveal_strlit("organization");
        reveal_strlit("organizations");
        assert("project"@[0] == 'p' && "folder"@[0] == 'f' && "organization"@[0] == 'o');
        assert("projects"@[0] == 'p' && "folders"@[0] == 'f' && "organizations"@[0] == 'o');
    }

    /// A scope's plural is its stored name with an `s`, and the organization's
    /// tag names it as well.
    pub proof fn law_plural_adds_an_s(self)
        ensures
            self.plural_text() == self.name_text() + "s"@,
            Scope::named(Scope::Organization.short_text()) == Some(Scope::Organization),
    {
        reveal_strlit("project");
        reveal_strlit("projects");
        reveal_strlit("folder");
        reveal_strlit("folders");
        reveal_strlit("organization");
        reveal_strlit("organizations");
        reveal_strlit("org");
        reveal_strlit("s");
        assert("projects"@ =~= "project"@ + "s"@);
        assert("folders"@ =~= "folder"@ + "s"@);
        assert("organizations"@ =~= "organization"@ + "s"@);
    }

    /// The texts of the scopes.
    pub proof fn law_texts()
        ensures
            Scope::Project.name_text() == "project"@,
            Scope::Folder.name_text() == "folder"@,
            Scope::Organization.name_text() == "organization"@,
            Scope::Project.short_text() == "proj"@,
            Scope::Folder.short_text() == "fldr"@,
            Scope::Organization.short_text() == "org"@,
    {
    }

    /// Two scopes never share a plural or a stored name.
    pub proof fn law_names_differ(a: Scope, b: Scope)
        requires
            a != b,
        ensures
            a.plural_text() != b.plural_text(),
            a.name_text() != b.name_text(),
    {
        a.law_names_read_back();
        b.law_names_read_back();
    }
}

impl FromStr for Scope {
    type Err = UnknownScope;

    /// Reads a scope's name.
    fn from_str(s: &str) -> (r: Result<Scope, UnknownScope>)
        ensures
            match r {
                Ok(scope) => Scope::named(s@) == Some(scope),
                Err(e) => Scope::named(s@) is None && e.name@ == s@,
            },
    {
        Scope::parse(s)
    }
}

} // verus!
