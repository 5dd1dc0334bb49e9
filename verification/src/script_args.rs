use vstd::prelude::*;

verus! {

/// A value handed to a script command, as far as the commands here look at it.
#[derive(Debug, Clone)]
pub enum ScriptArg {
    Nil,
    Bool(bool),
    Int(i64),
    Str(String),
    /// A table, a number with a fraction, or any other kind of value.
    Other,
}

pub open spec fn is_str_arg(a: ScriptArg) -> bool {
    a is Str
}

pub open spec fn is_int_arg(a: ScriptArg) -> bool {
    a is Int
}

/// A text placed in the scene: its content and position.
#[derive(Debug, Default)]
pub struct TextObj {
    pub content: String,
    pub pos: (i32, i32),
}

/// The arguments a script gives to create a text: a string and two integers.
pub open spec fn text_obj_args_ok(args: Seq<ScriptArg>) -> bool {
    args.len() == 3 && is_str_arg(args[0]) && is_int_arg(args[1]) && is_int_arg(args[2])
}

impl TextObj {
    /// Creates a text from the script's arguments `(content, x, y)`. Only the
    /// content is taken; the position stays at the origin. Any other
    /// arguments give the error `wrong args`.
    pub fn from_script_command(args: &Vec<ScriptArg>) -> (r: Result<TextObj, String>)
        ensures
            text_obj_args_ok(args@) ==> (r matches Ok(t) && t.content@ == args@[0]->Str_0@ && t.pos == (0i32, 0i32)),
            !text_obj_args_ok(args@) ==> (r matches Err(e) && e@ == "wrong args"@),
    {
        if args.len() == 3 {
            match (&args[0], &args[1], &args[2]) {
                (ScriptArg::Str(content), ScriptArg::Int(_), ScriptArg::Int(_)) => {
                    return Ok(TextObj { content: content.clone(), pos: (0, 0) });
                },
                _ => {},
            }
        }
        Err(String::from_str("wrong args"))
    }
}

/// Why the arguments of `add_layer` were refused.
#[derive(Debug, Clone, Copy, PartialEq, Eq, Structural)]
pub enum LayerArgError {
    /// Fewer than two arguments.
    TooFewArgs,
    /// The argument at this position is not a string.
    NotAString(usize),
}

/// A layer to add: its type, its name, and the source it shows.
#[derive(Debug, Clone)]
pub struct LayerSpec {
    pub layer_type: String,
    pub name: String,
    pub source: String,
}

/// The index of the last `c` in `s`, or -1 when `c` does not occur.
pub open spec fn last_index_of(s: Seq<char>, c: char) -> int
    decreases s.len(),
{
    if s.len() == 0 {
        -1
    } else if s.last() == c {
        s.len() - 1
    } else {
        last_index_of(s.drop_last(), c)
    }
}

/// The last `/`-separated component of a path: what follows its last `/`.
pub open spec fn last_component(path: Seq<char>) -> Seq<char> {
    path.skip(last_index_of(path, '/') + 1)
}

/// The stem of a file name, by the rules std documents for `file_stem`: the
/// whole name when it has no dot, or when its only dot is the first
/// character; otherwise the part before the last dot.
pub open spec fn stem_rule(name: Seq<char>) -> Seq<char> {
    let i = last_index_of(name, '.');
    if i <= 0 {
        name
    } else {
        name.take(i)
    }
}

/// A path whose file name is its last `/`-separated component on every
/// platform: not empty, without `\` or `:`, not starting with `//`, not
/// ending with `/`, and whose last component is neither `.` nor `..`.
pub open spec fn slash_path_with_file_name(path: Seq<char>) -> bool {
    &&& path.len() > 0
    &&& forall|i: int| 0 <= i < path.len() ==> path[i] != '\\' && path[i] != ':'
    &&& !(path.len() >= 2 && path[0] == '/' && path[1] == '/')
    &&& path.last() != '/'
    &&& last_component(path) != seq!['.']
    &&& last_component(path) != seq!['.', '.']
}

/// `Path::file_stem` on the path `source`, as UTF-8. std documents that an
/// empty path has no file name, hence no stem; that `/` separates components
/// on every platform, the file name being the last component; and the stem
/// rules of `stem_rule`. The stem of a `&str` path is a part of it, so it is
/// always valid UTF-8. What the stem is for paths with `\` or `:` (other
/// separators and prefixes on some platforms), or whose file name std
/// normalises (a trailing `/`, a last component `.` or `..`), is not stated.
#[verifier::external_body]
fn path_file_stem(source: &str) -> (r: Option<String>)
    ensures
        source@.len() == 0 ==> r is None,
        slash_path_with_file_name(source@) ==> r is Some && r->0@ == stem_rule(last_component(source@)),
{
    std::path::Path::new(source).file_stem().and_then(|x| x.to_str()).map(|x| x.to_string())
}

/// The name a layer gets when none is given: the stem of its source, or `layer`.
pub open spec fn default_layer_name(stem: Option<Seq<char>>) -> Seq<char> {
    match stem {
        Some(s) => s,
        None => "layer"@,
    }
}

/// The outcome of `add_layer`'s arguments, given the stem of the second
/// argument's path (used only when exactly two arguments are given): with
/// three or more, they are the type, the name and the source; with two,
/// the type and the source, the name coming from the source.
pub open spec fn layer_args_spec(args: Seq<ScriptArg>, stem: Option<Seq<char>>) -> Result<(Seq<char>, Seq<char>, Seq<char>), LayerArgError> {
    if args.len() < 2 {
        Err(LayerArgError::TooFewArgs)
    } else if !is_str_arg(args[0]) {
        Err(LayerArgError::NotAString(0))
    } else if !is_str_arg(args[1]) {
        Err(LayerArgError::NotAString(1))
    } else if args.len() >= 3 {
        if !is_str_arg(args[2]) {
            Err(LayerArgError::NotAString(2))
        } else {
            Ok((args[0]->Str_0@, args[1]->Str_0@, args[2]->Str_0@))
        }
    } else {
        Ok((args[0]->Str_0@, default_layer_name(stem), args[1]->Str_0@))
    }
}

pub open spec fn layer_view(r: Result<LayerSpec, LayerArgError>) -> Result<(Seq<char>, Seq<char>, Seq<char>), LayerArgError> {
    match r {
        Ok(l) => Ok((l.layer_type@, l.name@, l.source@)),
        Err(e) => Err(e),
    }
}

pub open spec fn opt_string_view(o: Option<String>) -> Option<Seq<char>> {
    match o {
        Some(s) => Some(s@),
        None => None,
    }
}

/// Reads `add_layer`'s arguments once the stem of the source is known; see `layer_args_spec`.
pub fn layer_args_with_stem(args: &Vec<ScriptArg>, stem: Option<String>) -> (r: Result<LayerSpec, LayerArgError>)
    ensures
        layer_view(r) == layer_args_spec(args@, opt_string_view(stem)),
{
    if args.len() < 2 {
        return Err(LayerArgError::TooFewArgs);
    }
    let layer_type = match &args[0] {
        ScriptArg::Str(s) => s.clone(),
        _ => {
            return Err(LayerArgError::NotAString(0));
        },
    };
    let second = match &args[1] {
        ScriptArg::Str(s) => s.clone(),
        _ => {
            return Err(LayerArgError::NotAString(1));
        },
    };
    if args.len() >= 3 {
        match &args[2] {
            ScriptArg::Str(s) => Ok(LayerSpec { layer_type, name: second, source: s.clone() }),
            _ => Err(LayerArgError::NotAString(2)),
        }
    } else {
        let name = match stem {
            Some(s) => s,
            None => String::from_str("layer"),
        };
        Ok(LayerSpec { layer_type, name, source: second })
    }
}

/// Reads the arguments of the script's `add_layer`: `(type, name, source)`,
/// or `(type, source)` with the name taken from the source's file stem
/// (`layer` when it has none).
pub fn parse_add_layer_args(args: &Vec<ScriptArg>) -> (r: Result<LayerSpec, LayerArgError>)
    ensures
        args@.len() != 2 ==> layer_view(r) == layer_args_spec(args@, None),
        args@.len() == 2 && args@[1] is Str && args@[1]->Str_0@.len() == 0
            ==> layer_view(r) == layer_args_spec(args@, None),
        args@.len() == 2 && args@[1] is Str && slash_path_with_file_name(args@[1]->Str_0@)
            ==> layer_view(r) == layer_args_spec(args@, Some(stem_rule(last_component(args@[1]->Str_0@)))),
        exists|stem: Option<Seq<char>>| layer_view(r) == layer_args_spec(args@, stem),
{
    let stem = if args.len() == 2 {
        match &args[1] {
            ScriptArg::Str(s) => path_file_stem(s.as_str()),
            _ => None,
        }
    } else {
        None
    };
    let r = layer_args_with_stem(args, stem);
    assert(layer_view(r) == layer_args_spec(args@, opt_string_view(stem)));
    r
}

/// Reads the argument of the script's `del_layer`: the name of the layer to
/// remove, which must be a string given first. `None` stands for the error
/// `del_layer requires name string`.
pub fn parse_del_layer_args(args: &Vec<ScriptArg>) -> (r: Option<String>)
    ensures
        (args@.len() > 0 && is_str_arg(args@[0])) <==> r is Some,
        r matches Some(name) ==> name@ == args@[0]->Str_0@,
{
    if args.len() == 0 {
        return None;
    }
    match &args[0] {
        ScriptArg::Str(s) => Some(s.clone()),
        _ => None,
    }
}

} // verus!
