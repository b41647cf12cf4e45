//! Naming a plugin group after its modules.
//!
//! A plugin group is declared by a head name and a list of module names:
//! `head, first, second, ...`, with an optional comma at the end. Every module
//! `m` contributes the plugin type named by the Pascal case of `m` followed by
//! `Plugin`; the group itself is named by the Pascal case of the head followed
//! by `Plugins`.
use convert_case::{Case, Casing};
use vstd::prelude::*;

verus! {

/// A token of the declaration.
#[derive(Debug, PartialEq, Eq)]
pub enum Token {
    /// An identifier, with its text.
    Ident(String),
    /// The separator `,`.
    Comma,
    /// Anything else.
    Other,
}

/// The kind of token that a position of the declaration asks for.
#[derive(Clone, Copy, Debug, PartialEq, Eq, Structural)]
pub enum Expected {
    Ident,
    Comma,
}

/// The first position at which the tokens are not a declaration. `at` is the
/// number of tokens where the declaration ends too early.
#[derive(Clone, Copy, Debug, PartialEq, Eq, Structural)]
pub struct ParseError {
    pub at: usize,
    pub expected: Expected,
}

/// A parsed declaration.
#[derive(Debug, PartialEq, Eq)]
pub struct Input {
    pub head: String,
    pub items: Vec<String>,
}

/// The names that a declaration gives rise to.
#[derive(Debug, PartialEq, Eq)]
pub struct PluginGroup {
    /// The name of the plugin group type.
    pub name: String,
    /// The module names, as declared.
    pub modules: Vec<String>,
    /// For each module, the name of its plugin type.
    pub plugins: Vec<String>,
}

/// Identifiers stand at the even positions, commas at the odd ones.
pub open spec fn expected_at(k: int) -> Expected {
    if k % 2 == 0 {
        Expected::Ident
    } else {
        Expected::Comma
    }
}

/// Position `k` holds a token of the kind that it asks for.
pub open spec fn token_fits(tokens: Seq<Token>, k: int) -> bool {
    0 <= k < tokens.len() && match expected_at(k) {
        Expected::Ident => tokens[k] is Ident,
        Expected::Comma => tokens[k] is Comma,
    }
}

/// The tokens are a declaration: a head, a comma, and then identifiers
/// separated by commas, with or without a comma at the end.
pub open spec fn well_formed(tokens: Seq<Token>) -> bool {
    tokens.len() >= 2 && forall|k: int| 0 <= k < tokens.len() ==> token_fits(tokens, k)
}

/// `at` is the first position that does not fit; the head and the comma
/// behind it are asked for even where the tokens end before them.
pub open spec fn first_misfit(tokens: Seq<Token>, at: int) -> bool {
    &&& 0 <= at
    &&& at < tokens.len() || at < 2
    &&& !token_fits(tokens, at)
    &&& forall|k: int| 0 <= k < at ==> token_fits(tokens, k)
}

/// The number of modules in a declaration of `len` tokens.
pub open spec fn item_count(len: int) -> int {
    (len - 1) / 2
}

/// The text of the `j`-th module name of a declaration.
pub open spec fn item_at(tokens: Seq<Token>, j: int) -> String {
    tokens[2 + 2 * j]->Ident_0
}

/// `input` holds the head and the module names of the declaration `tokens`.
pub open spec fn parsed_as(tokens: Seq<Token>, input: Input) -> bool {
    &&& well_formed(tokens)
    &&& input.head == tokens[0]->Ident_0
    &&& input.items@.len() == item_count(tokens.len() as int)
    &&& forall|j: int| 0 <= j < input.items@.len() ==> input.items@[j] == item_at(tokens, j)
}

/// A string in Pascal case, as `convert_case` converts it.
pub uninterp spec fn pascal_case(s: Seq<char>) -> Seq<char>;

/// `convert_case::Casing::to_case` with `Case::Pascal`: splits the string into
/// words at its default boundaries, capitalises each word and joins them
/// without a delimiter. The result depends on the string alone and is named
/// `pascal_case`; nothing else is claimed of it.
#[verifier::external_body]
fn to_pascal_case(s: &String) -> (r: String)
    ensures
        r@ == pascal_case(s@),
{
    s.to_case(Case::Pascal)
}

/// The name of the plugin type of a module whose name in Pascal case is `pascal`.
pub fn plugin_name(pascal: String) -> (r: String)
    ensures
        r@ == pascal@ + "Plugin"@,
{
    pascal.concat("Plugin")
}

/// The name of the plugin group whose head in Pascal case is `pascal`.
pub fn plugin_group_name(pascal: String) -> (r: String)
    ensures
        r@ == pascal@ + "Plugins"@,
{
    pascal.concat("Plugins")
}

impl Input {
    /// Parses a declaration. It succeeds exactly on the well-formed token
    /// sequences; otherwise it reports the first position that does not fit.
    pub fn parse(tokens: &Vec<Token>) -> (r: Result<Input, ParseError>)
        ensures
            match r {
                Ok(input) => parsed_as(tokens@, input),
                Err(e) => first_misfit(tokens@, e.at as int) && e.expected == expected_at(
                    e.at as int,
                ),
            },
            r is Ok <==> well_formed(tokens@),
    {
        let n: usize = tokens.len();
        if n == 0 {
            return Err(ParseError { at: 0, expected: Expected::Ident });
        }
        let head = match &tokens[0] {
            Token::Ident(text) => text.clone(),
            _ => {
                assert(!token_fits(tokens@, 0));
                return Err(ParseError { at: 0, expected: Expected::Ident });
            },
        };
        if n == 1 {
            return Err(ParseError { at: 1, expected: Expected::Comma });
        }
        match &tokens[1] {
            Token::Comma => {},
            _ => {
                assert(!token_fits(tokens@, 1));
                return Err(ParseError { at: 1, expected: Expected::Comma });
            },
        }
        let mut items: Vec<String> = Vec::new();
        let mut k: usize = 2;
        while k < n
            invariant
                2 <= k <= n,
                n == tokens@.len(),
                forall|j: int| 0 <= j < k ==> token_fits(tokens@, j),
                items@.len() == item_count(k as int),
                forall|j: int| 0 <= j < items@.len() ==> items@[j] == item_at(tokens@, j),
            decreases n - k,
        {
            if k % 2 == 0 {
                match &tokens[k] {
                    Token::Ident(text) => {
                        items.push(text.clone());
                    },
                    _ => {
                        assert(!token_fits(tokens@, k as int));
                        return Err(ParseError { at: k, expected: Expected::Ident });
                    },
                }
            } else {
                match &tokens[k] {
                    Token::Comma => {},
                    _ => {
                        assert(!token_fits(tokens@, k as int));
                        return Err(ParseError { at: k, expected: Expected::Comma });
                    },
                }
            }
            k += 1;
        }
        Ok(Input { head, items })
    }
}

/// The plugin group that `group` names for the declaration `tokens`.
pub open spec fn names_group(tokens: Seq<Token>, group: PluginGroup) -> bool {
    &&& well_formed(tokens)
    &&& group.name@ == pascal_case((tokens[0]->Ident_0)@) + "Plugins"@
    &&& group.modules@.len() == item_count(tokens.len() as int)
    &&& group.plugins@.len() == item_count(tokens.len() as int)
    &&& forall|j: int|
        0 <= j < group.modules@.len() ==> #[trigger] group.modules@[j] == item_at(tokens, j)
    &&& forall|j: int|
        0 <= j < group.plugins@.len() ==> (#[trigger] group.plugins@[j])@ == pascal_case(
            item_at(tokens, j)@,
        ) + "Plugin"@
}

/// Names the plugin group of a declaration and the plugin type of each of its
/// modules. It fails exactly where the declaration does not parse.
pub fn bevy_plugin_group(tokens: &Vec<Token>) -> (r: Result<PluginGroup, ParseError>)
    ensures
        match r {
            Ok(group) => names_group(tokens@, group),
            Err(e) => first_misfit(tokens@, e.at as int) && e.expected == expected_at(e.at as int),
        },
        r is Ok <==> well_formed(tokens@),
{
    let input = match Input::parse(tokens) {
        Ok(input) => input,
        Err(e) => {
            return Err(e);
        },
    };
    let name = plugin_group_name(to_pascal_case(&input.head));
    let mut modules: Vec<String> = Vec::new();
    let mut plugins: Vec<String> = Vec::new();
    let mut j: usize = 0;
    while j < input.items.len()
        invariant
            j <= input.items@.len(),
            parsed_as(tokens@, input),
            modules@.len() == j,
            plugins@.len() == j,
            forall|i: int| 0 <= i < j ==> #[trigger] modules@[i] == item_at(tokens@, i),
            forall|i: int|
                0 <= i < j ==> (#[trigger] plugins@[i])@ == pascal_case(item_at(tokens@, i)@)
                    + "Plugin"@,
        decreases input.items@.len() - j,
    {
        let item = &input.items[j];
        plugins.push(plugin_name(to_pascal_case(item)));
        modules.push(item.clone());
        j += 1;
    }
    Ok(PluginGroup { name, modules, plugins })
}

} // verus!
