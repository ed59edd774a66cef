//! A small roster: students with a name and a major, and an enrollment
//! that keeps one rendered description per enrolled person.

use vstd::prelude::*;

verus! {

/// Anyone who can describe themselves in one rendered string.
pub trait ShowInfo {
    /// The characters that [`ShowInfo::show_info`] returns.
    spec fn info(&self) -> Seq<char>;

    /// Renders the description.
    fn show_info(&self) -> (r: String)
        ensures
            r@ == self.info(),
    ;
}

/// A student with a name and a declared major.
pub struct Student {
    pub name: String,
    pub major: String,
}

impl Student {
    /// A student with the given name and major.
    pub fn new(name: &str, major: &str) -> (s: Student)
        ensures
            s.name@ == name@,
            s.major@ == major@,
    {
        Student { name: name.to_owned(), major: major.to_owned() }
    }

    /// Declares a new major.
    pub fn set_major(&mut self, major: &str)
        ensures
            final(self).major@ == major@,
            final(self).name == old(self).name,
    {
        self.major = major.to_owned();
    }

    /// The currently declared major.
    pub fn get_major(&self) -> (r: &str)
        ensures
            r@ == self.major@,
    {
        self.major.as_str()
    }
}

impl ShowInfo for Student {
    open spec fn info(&self) -> Seq<char> {
        self.name@ + ": "@ + self.major@
    }

    fn show_info(&self) -> (r: String) {
        let mut r = self.name.clone();
        r.append(": ");
        r.append(self.major.as_str());
        r
    }
}

/// The descriptions joined in order, a blank line between neighbours.
pub open spec fn spec_join_infos(infos: Seq<Seq<char>>) -> Seq<char>
    decreases infos.len(),
{
    if infos.len() == 0 {
        Seq::empty()
    } else if infos.len() == 1 {
        infos[0]
    } else {
        spec_join_infos(infos.drop_last()) + "\n\n"@ + infos.last()
    }
}

/// An enrollment: one rendered description per enrolled person, in
/// enrollment order.
pub struct Enrollment {
    roster: Vec<String>,
}

impl Enrollment {
    /// The descriptions enrolled so far, oldest first.
    pub closed spec fn infos(&self) -> Seq<Seq<char>> {
        self.roster.deep_view()
    }

    /// An empty enrollment.
    pub fn new() -> (e: Enrollment)
        ensures
            e.infos() == Seq::<Seq<char>>::empty(),
    {
        let e = Enrollment { roster: Vec::new() };
        proof {
            assert(e.infos() =~= Seq::<Seq<char>>::empty());
        }
        e
    }

    /// Enrolls anyone who can describe themselves: their description joins
    /// the end of the roster.
    pub fn enroll<T: ShowInfo>(&mut self, student: T)
        ensures
            final(self).infos() == old(self).infos().push(student.info()),
    {
        let rendered = student.show_info();
        self.roster.push(rendered);
        proof {
            assert(self.infos() =~= old(self).infos().push(student.info()));
        }
    }

    /// Renders the whole roster: every description in enrollment order,
    /// separated by blank lines.
    #[verifier::loop_isolation(false)]
    pub fn show_all(&self) -> (r: String)
        ensures
            r@ == spec_join_infos(self.infos()),
    {
        let mut r = String::new();
        let mut i: usize = 0;
        while i < self.roster.len()
            invariant
                i <= self.roster.len(),
                r@ == spec_join_infos(self.infos().take(i as int)),
            decreases self.roster.len() - i,
        {
            proof {
                assert(self.infos().take(i + 1).drop_last() =~= self.infos().take(i as int));
                assert(self.infos().take(i + 1).last() == self.infos()[i as int]);
            }
            if i > 0 {
                r.append("\n\n");
            }
            r.append(self.roster[i].as_str());
            i += 1;
        }
        proof {
            assert(self.infos().take(self.roster.len() as int) =~= self.infos());
            if self.roster.len() == 0 {
                assert(r@ =~= spec_join_infos(self.infos()));
            }
        }
        r
    }
}

} // verus!
