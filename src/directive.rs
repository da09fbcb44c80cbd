//! Schema directives and the SDL text that declares them.
use vstd::prelude::*;

verus! {

/// A directive that can declare itself in SDL.
pub trait Directive {
    /// The SDL declaration of the directive, as text.
    spec fn spec_definition(&self) -> Seq<char>;

    /// The SDL declaration of the directive.
    fn definition(&self) -> (r: String)
        ensures
            r@ == self.spec_definition(),
    ;
}

/// A list of directive declarations.
pub struct Directives(Vec<String>);

/// Lines joined by newlines.
pub open spec fn join_lines(lines: Seq<Seq<char>>) -> Seq<char>
    decreases lines.len(),
{
    if lines.len() == 0 {
        Seq::empty()
    } else if lines.len() == 1 {
        lines[0]
    } else {
        join_lines(lines.drop_last()) + seq!['\n'] + lines.last()
    }
}

impl View for Directives {
    type V = Seq<Seq<char>>;

    closed spec fn view(&self) -> Seq<Seq<char>> {
        self.0@.map_values(|s: String| s@)
    }
}

impl Directives {
    /// No declarations.
    pub fn new() -> (r: Directives)
        ensures
            r@ == Seq::<Seq<char>>::empty(),
    {
        let r = Directives(Vec::new());
        assert(r@ =~= Seq::<Seq<char>>::empty());
        r
    }

    /// All declarations, one after the other, separated by newlines.
    pub fn to_definition(&self) -> (r: String)
        ensures
            r@ == join_lines(self@),
    {
        let ghost lines = self@;
        let mut r = String::new();
        let mut i: usize = 0;
        while i < self.0.len()
            invariant
                lines == self@,
                lines == self.0@.map_values(|s: String| s@),
                i <= lines.len(),
                r@ == join_lines(lines.subrange(0, i as int)),
            decreases lines.len() - i,
        {
            if i > 0 {
                r.append("\n");
            }
            r.append(self.0[i].as_str());
            proof {
                reveal_strlit("\n");
                let s = lines.subrange(0, i as int + 1);
                assert(s.drop_last() =~= lines.subrange(0, i as int));
                assert(s.last() == self.0@[i as int]@);
                if i == 0 {
                    assert(r@ =~= join_lines(s));
                } else {
                    assert(r@ =~= join_lines(s));
                }
            }
            i = i + 1;
        }
        assert(lines.subrange(0, i as int) =~= lines);
        r
    }

    /// These declarations followed by `definition`.
    pub fn with_definition(self, definition: String) -> (r: Directives)
        ensures
            r@ == self@.push(definition@),
    {
        let ghost old_view = self@;
        let mut v = self.0;
        v.push(definition);
        let r = Directives(v);
        assert(r@ =~= old_view.push(definition@));
        r
    }

    /// These declarations followed by the declaration of `directive`.
    pub fn with<D: Directive>(self, directive: D) -> (r: Directives)
        ensures
            r@ == self@.push(directive.spec_definition()),
    {
        let d = directive.definition();
        self.with_definition(d)
    }
}

/// The `@resolver` directive, naming the custom resolver of a field.
pub struct ResolverDirective;

/// The name of the resolver directive.
pub const RESOLVER_DIRECTIVE: &'static str = "resolver";

/// The argument that names the resolver.
pub const NAME_ARGUMENT: &'static str = "name";

/// The SDL declaration of `@resolver`.
pub const RESOLVER_DEFINITION: &'static str = "\n        directive @resolver(name: String) on FIELD_DEFINITION\n        ";

impl Directive for ResolverDirective {
    open spec fn spec_definition(&self) -> Seq<char> {
        RESOLVER_DEFINITION@
    }

    fn definition(&self) -> (r: String) {
        String::from_str(RESOLVER_DEFINITION)
    }
}

} // verus!
