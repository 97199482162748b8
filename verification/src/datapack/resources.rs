//! File-level rules of a datapack: which archive entry paths are safe, how
//! a path below `data/` names a recipe, function, tag or raw resource, and
//! how the text of a function file becomes its commands.
use vstd::prelude::*;

use crate::datapack::tags::{canonical_tag, canonical_tag_error, canonical_tag_id};
use crate::datapack::{DataPackError, invalid_function, invalid_recipe, invalid_tag};
use crate::identifier::{identified, Identifier};
use crate::sorted::sview;
use crate::text::{
    chars_eq, chars_eq_str, starts_with, starts_with_str, concat_chars, contains_char, ends_with, ends_with_str, join_chars, join_seq,
    slice_chars, split_chars, split_seq, str_chars, string_from_chars, string_from_str,
    strip_prefix_or_keep, strip_prefix_or_keep_str, trim_chars, trim_end_all, trim_end_all_str,
    trim_ws, utf8_len, utf8_len_exceeds, vview,
};

verus! {

/// A path component that may stand in an archive entry path.
pub open spec fn safe_component(c: Seq<char>) -> bool {
    c.len() > 0 && c != seq!['.'] && c != seq!['.', '.']
}

/// An archive entry path that stays inside the archive: relative, and with
/// no empty, `.` or `..` component.
pub open spec fn safe_archive_path(path: Seq<char>) -> bool {
    &&& !(path.len() > 0 && path[0] == '/')
    &&& forall|i: int|
        0 <= i < split_seq(path, '/').len() ==> safe_component(#[trigger] split_seq(path, '/')[i])
}

/// An archive entry path is safe exactly when it does not start with `/`
/// and every piece between slashes is neither empty, `.` nor `..`; the
/// pieces hold no slash and joined with slashes give back the path.
pub proof fn lemma_safe_archive_path_pieces(path: Seq<char>)
    ensures
        safe_archive_path(path) <==> (!(path.len() > 0 && path[0] == '/') && forall|i: int|
            0 <= i < split_seq(path, '/').len() ==> safe_component(#[trigger] split_seq(path, '/')[i])),
        join_seq(split_seq(path, '/'), seq!['/']) == path,
        forall|i: int| 0 <= i < split_seq(path, '/').len() ==> !(#[trigger] split_seq(path, '/')[i]).contains('/'),
{
    crate::text::lemma_split_seq_pieces(path, '/');
}

/// Whether an archive entry path is safe to read.
pub fn is_safe_archive_path(path: &str) -> (r: bool)
    ensures
        r == safe_archive_path(path@),
{
    let s = str_chars(path);
    if s.len() > 0 && s[0] == '/' {
        return false;
    }
    let parts = split_chars(&s, '/');
    let mut i: usize = 0;
    while i < parts.len()
        invariant
            i <= parts.len(),
            s@ == path@,
            vview(parts@) == split_seq(s@, '/'),
            forall|j: int| 0 <= j < i ==> safe_component(#[trigger] vview(parts@)[j]),
        decreases parts.len() - i,
    {
        let c = &parts[i];
        assert(vview(parts@)[i as int] == c@);
        if c.len() == 0 {
            return false;
        }
        if c.len() == 1 && c[0] == '.' {
            assert(c@ =~= seq!['.']);
            return false;
        }
        if c.len() == 2 && c[0] == '.' && c[1] == '.' {
            assert(c@ =~= seq!['.', '.']);
            return false;
        }
        assert(c@ != seq!['.']) by {
            if c@ == seq!['.'] {
                assert(c@[0] == '.');
            }
        }
        assert(c@ != seq!['.', '.']) by {
            if c@ == seq!['.', '.'] {
                assert(c@[0] == '.' && c@[1] == '.');
            }
        }
        i = i + 1;
    }
    true
}

/// The resource name that the path parts below a resource directory give:
/// the parts joined by `/`, with the extension trimmed from the last one.
pub open spec fn resource_name(parts: Seq<Seq<char>>, ext: Seq<char>) -> Seq<char> {
    join_seq(parts.update(parts.len() - 1, trim_end_all(parts.last(), ext)), seq!['/'])
}

/// The name that `parts[from..]` give, by `resource_name`.
fn resource_name_of(parts: &Vec<Vec<char>>, from: usize, ext: &str) -> (r: Vec<char>)
    requires
        from < parts.len(),
    ensures
        r@ == resource_name(vview(parts@).skip(from as int), ext@),
{
    let mut rest: Vec<Vec<char>> = Vec::new();
    let mut i = from;
    let last = parts.len() - 1;
    while i < last
        invariant
            from <= i <= last,
            last == parts.len() - 1,
            vview(rest@) == vview(parts@).subrange(from as int, i as int),
        decreases last - i,
    {
        let piece = slice_chars(&parts[i], 0, parts[i].len());
        assert(piece@ =~= parts@[i as int]@);
        let ghost before = vview(rest@);
        rest.push(piece);
        proof {
            assert(vview(rest@) =~= before.push(piece@));
            assert(vview(parts@).subrange(from as int, i + 1) =~= vview(parts@).subrange(
                from as int,
                i as int,
            ).push(parts@[i as int]@));
        }
        i = i + 1;
    }
    let trimmed = trim_end_all_str(&parts[last], ext);
    rest.push(trimmed);
    proof {
        let tail = vview(parts@).skip(from as int);
        assert(vview(rest@) =~= tail.update(tail.len() - 1, trim_end_all(tail.last(), ext@)));
    }
    join_chars(&rest, '/')
}

/// The text of `identified(ns, path)` as a `Result` of strings.
fn identifier_string(ns: &Vec<char>, path: &Vec<char>) -> (r: Result<String, String>)
    ensures
        match identified(ns@, path@) {
            Ok(id) => r matches Ok(s) && s@ == id,
            Err(m) => r matches Err(s) && s@ == m,
        },
{
    match Identifier::new(string_from_chars(ns), string_from_chars(path)) {
        Ok(id) => Ok(id.as_string()),
        Err(e) => Err(e.message()),
    }
}

/// The function id that a path below an archive root names, or why none.
pub open spec fn function_id_of(resource_path: Seq<char>) -> Result<Seq<char>, Seq<char>> {
    let c = split_seq(resource_path, '/');
    if c.len() < 4 || c[0] != "data"@ || c[2] != "function"@ {
        Err("function is outside a data namespace function directory"@)
    } else if !ends_with(c.last(), ".mcfunction"@) {
        Err("function resource must end with .mcfunction"@)
    } else {
        identified(c[1], resource_name(c.skip(3), ".mcfunction"@))
    }
}

/// The recipe id that a path below an archive root names, or why none.
pub open spec fn recipe_id_of(resource_path: Seq<char>) -> Result<Seq<char>, Seq<char>> {
    let c = split_seq(resource_path, '/');
    if c.len() < 4 || c[0] != "data"@ || c[2] != "recipes"@ {
        Err("recipe is outside a data namespace"@)
    } else if !ends_with(c.last(), ".json"@) {
        Err("recipe resource must end with .json"@)
    } else {
        identified(c[1], resource_name(c.skip(3), ".json"@))
    }
}

/// The tag id that a path below an archive root names, or why none.
pub open spec fn tag_id_of(resource_path: Seq<char>) -> Result<Seq<char>, Seq<char>> {
    let c = split_seq(resource_path, '/');
    if c.len() < 5 || c[0] != "data"@ || c[2] != "tags"@ {
        Err("tag is outside a data namespace tags directory"@)
    } else if !ends_with(c.last(), ".json"@) {
        Err("tag resource must end with .json"@)
    } else {
        let text = c[1] + seq![':'] + c[3] + seq!['/'] + resource_name(c.skip(4), ".json"@);
        match canonical_tag(text) {
            Some(id) => Ok(id),
            None => Err(canonical_tag_error(text)),
        }
    }
}

/// The raw resource families that a reload keeps.
pub open spec fn raw_resource_directory(d: Seq<char>) -> bool {
    d == "loot_tables"@ || d == "predicates"@ || d == "advancements"@ || d == "structures"@
}

/// The extension of a raw resource file of directory `d`.
pub open spec fn raw_resource_extension(d: Seq<char>) -> Seq<char> {
    if d == "structures"@ {
        ".nbt"@
    } else {
        ".json"@
    }
}

/// The directory and id that a path below an archive root names as a raw
/// resource, or the kind and message of the refusal.
pub open spec fn raw_resource_of(resource_path: Seq<char>) -> Result<
    (Seq<char>, Seq<char>),
    (Seq<char>, Seq<char>),
> {
    let c = split_seq(resource_path, '/');
    if c.len() < 4 || c[0] != "data"@ {
        Err(("resource"@, "resource is outside data/"@))
    } else if !raw_resource_directory(c[2]) {
        Err(("resource"@, "unknown resource directory"@))
    } else if !ends_with(c.last(), raw_resource_extension(c[2])) {
        Err((c[2], "invalid resource extension"@))
    } else {
        match identified(c[1], resource_name(c.skip(3), raw_resource_extension(c[2]))) {
            Ok(id) => Ok((c[2], id)),
            Err(m) => Err((c[2], m)),
        }
    }
}

/// `e` reports `message` about the function file `path`.
pub open spec fn function_error(e: DataPackError, path: Seq<char>, message: Seq<char>) -> bool {
    e matches DataPackError::InvalidFunction { path: p, message: m } && p@ == path && m@ == message
}

/// `e` reports `message` about the recipe file `path`.
pub open spec fn recipe_error(e: DataPackError, path: Seq<char>, message: Seq<char>) -> bool {
    e matches DataPackError::InvalidRecipe { path: p, message: m } && p@ == path && m@ == message
}

/// `e` reports `message` about the tag file `path`.
pub open spec fn tag_file_error(e: DataPackError, path: Seq<char>, message: Seq<char>) -> bool {
    e matches DataPackError::InvalidTag { path: p, message: m } && p@ == path && m@ == message
}

/// The id of the function file at `resource_path` (inside an archive);
/// errors name the file as `path`.
pub fn function_id_from_resource_path(resource_path: &str, path: &str) -> (r: Result<
    String,
    DataPackError,
>)
    ensures
        match function_id_of(resource_path@) {
            Ok(id) => r matches Ok(s) && s@ == id,
            Err(m) => r matches Err(e) && function_error(e, path@, m),
        },
{
    let s = str_chars(resource_path);
    let c = split_chars(&s, '/');
    if c.len() < 4 || !chars_eq_str(&c[0], "data") || !chars_eq_str(&c[2], "function") {
        return Err(
            DataPackError::InvalidFunction {
                path: string_from_str(path),
                message: string_from_str("function is outside a data namespace function directory"),
            },
        );
    }
    assert(vview(c@)[0] == c@[0]@ && vview(c@)[2] == c@[2]@);
    let last = c.len() - 1;
    assert(vview(c@).last() == c@[last as int]@);
    if !ends_with_str(&c[last], ".mcfunction") {
        return Err(
            DataPackError::InvalidFunction {
                path: string_from_str(path),
                message: string_from_str("function resource must end with .mcfunction"),
            },
        );
    }
    let name = resource_name_of(&c, 3, ".mcfunction");
    assert(vview(c@)[1] == c@[1]@);
    match identifier_string(&c[1], &name) {
        Ok(id) => Ok(id),
        Err(m) => Err(DataPackError::InvalidFunction { path: string_from_str(path), message: m }),
    }
}

/// The id of the recipe file at `resource_path` (inside an archive);
/// errors name the file as `path`.
pub fn recipe_id_from_resource_path(resource_path: &str, path: &str) -> (r: Result<
    String,
    DataPackError,
>)
    ensures
        match recipe_id_of(resource_path@) {
            Ok(id) => r matches Ok(s) && s@ == id,
            Err(m) => r matches Err(e) && recipe_error(e, path@, m),
        },
{
    let s = str_chars(resource_path);
    let c = split_chars(&s, '/');
    if c.len() < 4 || !chars_eq_str(&c[0], "data") || !chars_eq_str(&c[2], "recipes") {
        return Err(
            DataPackError::InvalidRecipe {
                path: string_from_str(path),
                message: string_from_str("recipe is outside a data namespace"),
            },
        );
    }
    assert(vview(c@)[0] == c@[0]@ && vview(c@)[2] == c@[2]@);
    let last = c.len() - 1;
    assert(vview(c@).last() == c@[last as int]@);
    if !ends_with_str(&c[last], ".json") {
        return Err(
            DataPackError::InvalidRecipe {
                path: string_from_str(path),
                message: string_from_str("recipe resource must end with .json"),
            },
        );
    }
    let name = resource_name_of(&c, 3, ".json");
    assert(vview(c@)[1] == c@[1]@);
    match identifier_string(&c[1], &name) {
        Ok(id) => Ok(id),
        Err(m) => Err(DataPackError::InvalidRecipe { path: string_from_str(path), message: m }),
    }
}

/// The id of the tag file at `resource_path` (inside an archive); errors
/// name the file as `path`.
pub fn tag_id_from_resource_path(resource_path: &str, path: &str) -> (r: Result<
    String,
    DataPackError,
>)
    ensures
        match tag_id_of(resource_path@) {
            Ok(id) => r matches Ok(s) && s@ == id,
            Err(m) => r matches Err(e) && tag_file_error(e, path@, m),
        },
{
    let s = str_chars(resource_path);
    let c = split_chars(&s, '/');
    if c.len() < 5 || !chars_eq_str(&c[0], "data") || !chars_eq_str(&c[2], "tags") {
        return Err(
            DataPackError::InvalidTag {
                path: string_from_str(path),
                message: string_from_str("tag is outside a data namespace tags directory"),
            },
        );
    }
    assert(vview(c@)[0] == c@[0]@ && vview(c@)[2] == c@[2]@);
    let last = c.len() - 1;
    assert(vview(c@).last() == c@[last as int]@);
    if !ends_with_str(&c[last], ".json") {
        return Err(
            DataPackError::InvalidTag {
                path: string_from_str(path),
                message: string_from_str("tag resource must end with .json"),
            },
        );
    }
    let name = resource_name_of(&c, 4, ".json");
    let mut colon: Vec<char> = Vec::new();
    colon.push(':');
    let mut slash: Vec<char> = Vec::new();
    slash.push('/');
    let t1 = concat_chars(&c[1], &colon);
    let t2 = concat_chars(&t1, &c[3]);
    let t3 = concat_chars(&t2, &slash);
    let text = concat_chars(&t3, &name);
    proof {
        assert(vview(c@)[1] == c@[1]@ && vview(c@)[3] == c@[3]@);
        assert(text@ =~= vview(c@)[1] + seq![':'] + vview(c@)[3] + seq!['/'] + name@);
    }
    let text_s = string_from_chars(&text);
    match canonical_tag_id(text_s.as_str()) {
        Ok(id) => Ok(id),
        Err(m) => Err(DataPackError::InvalidTag { path: string_from_str(path), message: m }),
    }
}

/// The directory and id of the raw resource file at `resource_path`
/// (inside an archive); errors name the file as `path`.
pub fn resource_id_from_resource_path(resource_path: &str, path: &str) -> (r: Result<
    (String, String),
    DataPackError,
>)
    ensures
        match raw_resource_of(resource_path@) {
            Ok((dir, id)) => r matches Ok((d, s)) && d@ == dir && s@ == id,
            Err((kind, m)) => r matches Err(e) && e matches DataPackError::InvalidResource {
                kind: k,
                path: p,
                message: msg,
            } && k@ == kind && p@ == path@ && msg@ == m,
        },
{
    let s = str_chars(resource_path);
    let c = split_chars(&s, '/');
    if c.len() < 4 || !chars_eq_str(&c[0], "data") {
        return Err(
            DataPackError::InvalidResource {
                kind: string_from_str("resource"),
                path: string_from_str(path),
                message: string_from_str("resource is outside data/"),
            },
        );
    }
    assert(vview(c@)[0] == c@[0]@ && vview(c@)[2] == c@[2]@ && vview(c@)[1] == c@[1]@);
    let dir = &c[2];
    let structures = chars_eq_str(dir, "structures");
    if !chars_eq_str(dir, "loot_tables") && !chars_eq_str(dir, "predicates") && !chars_eq_str(
        dir,
        "advancements",
    ) && !structures {
        return Err(
            DataPackError::InvalidResource {
                kind: string_from_str("resource"),
                path: string_from_str(path),
                message: string_from_str("unknown resource directory"),
            },
        );
    }
    let ext = if structures {
        ".nbt"
    } else {
        ".json"
    };
    assert(ext@ == raw_resource_extension(dir@));
    let last = c.len() - 1;
    assert(vview(c@).last() == c@[last as int]@);
    if !ends_with_str(&c[last], ext) {
        return Err(
            DataPackError::InvalidResource {
                kind: string_from_chars(dir),
                path: string_from_str(path),
                message: string_from_str("invalid resource extension"),
            },
        );
    }
    let name = resource_name_of(&c, 3, ext);
    match identifier_string(&c[1], &name) {
        Ok(id) => Ok((string_from_chars(dir), id)),
        Err(m) => Err(
            DataPackError::InvalidResource {
                kind: string_from_chars(dir),
                path: string_from_str(path),
                message: m,
            },
        ),
    }
}

/// The most commands one function may hold.
pub const MAX_FUNCTION_LINES: usize = 65536;

/// The most UTF-8 bytes one command may take.
pub const MAX_COMMAND_LENGTH: usize = 32767;

/// The lines of a function file: a leading byte-order mark is dropped and
/// the text is cut at every line feed.  These pieces differ from what
/// `str::lines` gives only by a trailing carriage return and by a final
/// empty piece; `function_commands` trims every line and skips empty ones,
/// so neither difference reaches a command.
pub open spec fn function_lines(text: Seq<char>) -> Seq<Seq<char>> {
    split_seq(strip_prefix_or_keep(text, seq!['\u{feff}']), '\n')
}

/// The commands that `lines` add to `acc`, or why the function is refused:
/// every line is trimmed, empty and `#` comment lines are skipped, and the
/// first line with a NUL character or of more than 32767 bytes, or the
/// command past the 65536th, refuses the whole function.
pub open spec fn function_commands(lines: Seq<Seq<char>>, acc: Seq<Seq<char>>) -> Result<
    Seq<Seq<char>>,
    Seq<char>,
>
    decreases lines.len(),
{
    if lines.len() == 0 {
        Ok(acc)
    } else {
        let line = trim_ws(lines[0]);
        if line.len() == 0 || line[0] == '#' {
            function_commands(lines.drop_first(), acc)
        } else if line.contains('\0') {
            Err("command contains a NUL byte"@)
        } else if utf8_len(line) > MAX_COMMAND_LENGTH {
            Err("command exceeds 32767 bytes"@)
        } else if acc.len() + 1 > MAX_FUNCTION_LINES {
            Err("function exceeds 65536 commands"@)
        } else {
            function_commands(lines.drop_first(), acc.push(line))
        }
    }
}

/// Whether a trimmed command line refuses its function: it holds a NUL
/// character or takes more than 32767 bytes.
pub open spec fn command_refused(line: Seq<char>) -> bool {
    line.contains('\0') || utf8_len(line) > MAX_COMMAND_LENGTH
}

/// The trimmed lines that are commands: neither empty nor `#` comments.
pub open spec fn command_lines(lines: Seq<Seq<char>>) -> Seq<Seq<char>>
    decreases lines.len(),
{
    if lines.len() == 0 {
        Seq::empty()
    } else {
        let line = trim_ws(lines[0]);
        if line.len() == 0 || line[0] == '#' {
            command_lines(lines.drop_first())
        } else {
            seq![line] + command_lines(lines.drop_first())
        }
    }
}

/// Reading function lines onto `acc` succeeds exactly when no command line
/// is refused and all of them fit under the command limit, and then gives
/// `acc` followed by the command lines.
pub proof fn lemma_function_commands_exactly(lines: Seq<Seq<char>>, acc: Seq<Seq<char>>)
    requires
        acc.len() <= MAX_FUNCTION_LINES,
    ensures
        function_commands(lines, acc) is Ok <==> (forall|i: int|
            0 <= i < command_lines(lines).len() ==> !command_refused(#[trigger] command_lines(lines)[i]))
            && acc.len() + command_lines(lines).len() <= MAX_FUNCTION_LINES,
        function_commands(lines, acc) is Ok ==> function_commands(lines, acc) == Ok::<
            Seq<Seq<char>>,
            Seq<char>,
        >(acc + command_lines(lines)),
    decreases lines.len(),
{
    if lines.len() == 0 {
        assert(acc + Seq::<Seq<char>>::empty() =~= acc);
    } else {
        let line = trim_ws(lines[0]);
        let rest = lines.drop_first();
        let k = command_lines(lines);
        let kr = command_lines(rest);
        if line.len() == 0 || line[0] == '#' {
            lemma_function_commands_exactly(rest, acc);
        } else {
            assert(k == seq![line] + kr);
            assert(k[0] == line);
            assert forall|i: int| 0 <= i < kr.len() implies kr[i] == k[i + 1] by {}
            if line.contains('\0') || utf8_len(line) > MAX_COMMAND_LENGTH {
                assert(command_refused(k[0]));
            } else if acc.len() + 1 > MAX_FUNCTION_LINES {
            } else {
                lemma_function_commands_exactly(rest, acc.push(line));
                assert(acc.push(line) + kr =~= acc + k);
                if (forall|i: int| 0 <= i < kr.len() ==> !command_refused(#[trigger] kr[i])) {
                    assert forall|i: int| 0 <= i < k.len() implies !command_refused(#[trigger] k[i]) by {
                        if i > 0 {
                            assert(k[i] == kr[i - 1]);
                        }
                    }
                }
            }
        }
    }
}

/// A function file is refused exactly when one of its command lines holds a
/// NUL character or takes more than 32767 bytes, or it has more than 65536
/// command lines; otherwise its commands are its command lines.
pub proof fn lemma_function_file_refused_exactly(text: Seq<char>)
    ensures
        function_commands(function_lines(text), Seq::empty()) is Err <==> (exists|i: int|
            0 <= i < command_lines(function_lines(text)).len() && command_refused(
                #[trigger] command_lines(function_lines(text))[i],
            )) || command_lines(function_lines(text)).len() > MAX_FUNCTION_LINES,
        function_commands(function_lines(text), Seq::empty()) is Ok ==> function_commands(
            function_lines(text),
            Seq::empty(),
        ) == Ok::<Seq<Seq<char>>, Seq<char>>(command_lines(function_lines(text))),
{
    lemma_function_commands_exactly(function_lines(text), Seq::empty());
    assert(Seq::<Seq<char>>::empty() + command_lines(function_lines(text)) =~= command_lines(
        function_lines(text),
    ));
}

/// The commands of a function file with text `text`; errors name the file
/// as `path`.
pub fn parse_function_text(path: &str, text: &str) -> (r: Result<Vec<String>, DataPackError>)
    ensures
        match function_commands(function_lines(text@), Seq::empty()) {
            Ok(commands) => r matches Ok(v) && sview(v@) == commands,
            Err(m) => r matches Err(e) && function_error(e, path@, m),
        },
{
    let all = str_chars(text);
    let body = strip_prefix_or_keep_str(&all, "\u{feff}");
    proof {
        reveal_strlit("\u{feff}");
        assert("\u{feff}"@ =~= seq!['\u{feff}']);
    }
    let lines = split_chars(&body, '\n');
    let ghost ls = vview(lines@);
    let mut commands: Vec<String> = Vec::new();
    let mut i: usize = 0;
    assert(ls.skip(0) =~= ls);
    assert(sview(commands@) =~= Seq::<Seq<char>>::empty());
    while i < lines.len()
        invariant
            i <= lines.len(),
            ls == vview(lines@),
            ls == function_lines(text@),
            commands.len() <= MAX_FUNCTION_LINES,
            function_commands(ls, Seq::empty()) == function_commands(
                ls.skip(i as int),
                sview(commands@),
            ),
        decreases lines.len() - i,
    {
        proof {
            assert(ls.skip(i as int)[0] == lines@[i as int]@);
            assert(ls.skip(i as int).drop_first() =~= ls.skip(i + 1));
        }
        let line = trim_chars(&lines[i]);
        if line.len() == 0 || line[0] == '#' {
        } else if contains_char(&line, '\0') {
            return Err(
                DataPackError::InvalidFunction {
                    path: string_from_str(path),
                    message: string_from_str("command contains a NUL byte"),
                },
            );
        } else if utf8_len_exceeds(&line, MAX_COMMAND_LENGTH) {
            return Err(
                DataPackError::InvalidFunction {
                    path: string_from_str(path),
                    message: string_from_str("command exceeds 32767 bytes"),
                },
            );
        } else if commands.len() >= MAX_FUNCTION_LINES {
            return Err(
                DataPackError::InvalidFunction {
                    path: string_from_str(path),
                    message: string_from_str("function exceeds 65536 commands"),
                },
            );
        } else {
            let ghost before = sview(commands@);
            commands.push(string_from_chars(&line));
            assert(sview(commands@) =~= before.push(line@));
        }
        i = i + 1;
    }
    Ok(commands)
}

/// The index of the last component equal to `name`.
pub open spec fn last_index_of(c: Seq<Seq<char>>, name: Seq<char>) -> Option<int>
    decreases c.len(),
{
    if c.len() == 0 {
        None
    } else if c.last() == name {
        Some(c.len() - 1)
    } else {
        last_index_of(c.drop_last(), name)
    }
}

/// The index of the first component from `start` on equal to `name`.
pub open spec fn index_from(c: Seq<Seq<char>>, name: Seq<char>, start: int) -> Option<int>
    decreases c.len() - start,
{
    if start < 0 || start >= c.len() {
        None
    } else if c[start] == name {
        Some(start)
    } else {
        index_from(c, name, start + 1)
    }
}

/// Finds the last component equal to `name`.
fn find_last(c: &Vec<Vec<char>>, name: &str) -> (r: Option<usize>)
    ensures
        match last_index_of(vview(c@), name@) {
            Some(i) => r is Some && r->0 == i,
            None => r is None,
        },
        r matches Some(i) ==> i < c.len(),
{
    proof {
        lemma_last_index_bounds(vview(c@), name@);
    }
    assert(vview(c@).take(c.len() as int) =~= vview(c@));
    let mut i = c.len();
    while i > 0
        invariant
            i <= c.len(),
            last_index_of(vview(c@), name@) == last_index_of(vview(c@).take(i as int), name@),
            last_index_of(vview(c@), name@) matches Some(k) ==> k < c.len(),
        decreases i,
    {
        assert(vview(c@).take(i as int).drop_last() =~= vview(c@).take(i - 1));
        assert(vview(c@).take(i as int).last() == c@[i - 1]@);
        if chars_eq_str(&c[i - 1], name) {
            return Some(i - 1);
        }
        i = i - 1;
    }
    None
}

/// Finds the first component from `start` on equal to `name`.
fn find_from(c: &Vec<Vec<char>>, name: &str, start: usize) -> (r: Option<usize>)
    ensures
        match index_from(vview(c@), name@, start as int) {
            Some(i) => r is Some && r->0 == i,
            None => r is None,
        },
{
    let mut i = start;
    while i < c.len()
        invariant
            start <= i,
            index_from(vview(c@), name@, start as int) == index_from(vview(c@), name@, i as int),
        decreases c.len() - i,
    {
        assert(vview(c@)[i as int] == c@[i as int]@);
        if chars_eq_str(&c[i], name) {
            return Some(i);
        }
        i = i + 1;
    }
    None
}

/// The recipe id that a file at the path with components `c` names: the
/// last `recipes` directory must sit in a namespace directory of `data`,
/// and the name must end with `.json`; the id is that of the same file
/// inside an archive.
pub open spec fn recipe_id_from_components(c: Seq<Seq<char>>) -> Result<Seq<char>, Seq<char>> {
    match last_index_of(c, "recipes"@) {
        None => Err("recipe is outside a namespace recipes directory"@),
        Some(ri) => if ri == 0 {
            Err("recipe namespace is missing"@)
        } else if ri - 1 == 0 || c[ri - 2] != "data"@ {
            Err("recipe is outside a data namespace"@)
        } else if ri + 1 >= c.len() {
            Err("recipe resource name is missing"@)
        } else if !ends_with(c.last(), ".json"@) {
            Err("recipe resource must end with .json"@)
        } else {
            recipe_id_of("data/"@ + c[ri - 1] + "/recipes/"@ + join_seq(c.skip(ri + 1), seq!['/']))
        },
    }
}

/// The function id that a file at the path with components `c` names.
pub open spec fn function_id_from_components(c: Seq<Seq<char>>) -> Result<Seq<char>, Seq<char>> {
    match last_index_of(c, "function"@) {
        None => Err("function is outside a namespace directory"@),
        Some(fi) => if fi == 0 {
            Err("function namespace is missing"@)
        } else if fi - 1 == 0 || c[fi - 2] != "data"@ {
            Err("function is outside a data namespace"@)
        } else if fi + 1 >= c.len() {
            Err("function resource name is missing"@)
        } else if !ends_with(c.last(), ".mcfunction"@) {
            Err("function resource must end with .mcfunction"@)
        } else {
            identified(c[fi - 1], resource_name(c.skip(fi + 1), ".mcfunction"@))
        },
    }
}

/// The tag id that a file at the path with components `c` names: after the
/// last `data` come the namespace, then (somewhere) `tags`, the registry
/// and the resource path ending in `.json`.
pub open spec fn tag_id_from_components(c: Seq<Seq<char>>) -> Result<Seq<char>, Seq<char>> {
    match last_index_of(c, "data"@) {
        None => Err("tag is outside a data namespace"@),
        Some(di) => if di + 1 >= c.len() {
            Err("tag namespace is missing"@)
        } else {
            match index_from(c, "tags"@, di + 2) {
                None => Err("tag is outside a tags directory"@),
                Some(ti) => if ti + 1 >= c.len() {
                    Err("tag registry is missing"@)
                } else if ti + 2 >= c.len() {
                    Err("tag resource name is missing"@)
                } else if !ends_with(c.last(), ".json"@) || (ti + 3 == c.len() && c.last() == "tags.json"@) {
                    Err("tag resource must end with .json"@)
                } else {
                    let text = c[di + 1] + seq![':'] + c[ti + 1] + seq!['/'] + resource_name(c.skip(ti + 2), ".json"@);
                    match canonical_tag(text) {
                        Some(id) => Ok(id),
                        None => Err(canonical_tag_error(text)),
                    }
                },
            }
        },
    }
}

/// The characters of each component.
fn component_chars(components: &Vec<String>) -> (r: Vec<Vec<char>>)
    ensures
        vview(r@) == sview(components@),
{
    let mut out: Vec<Vec<char>> = Vec::new();
    let mut i: usize = 0;
    while i < components.len()
        invariant
            i <= components.len(),
            vview(out@) == sview(components@).take(i as int),
        decreases components.len() - i,
    {
        let ghost before = vview(out@);
        out.push(str_chars(components[i].as_str()));
        assert(vview(out@) =~= before.push(components@[i as int]@));
        assert(sview(components@).take(i + 1) =~= sview(components@).take(i as int).push(components@[i as int]@));
        i = i + 1;
    }
    assert(sview(components@).take(components.len() as int) =~= sview(components@));
    out
}

/// The parts `c[from..]` joined with `/`.
fn join_from(c: &Vec<Vec<char>>, from: usize) -> (r: Vec<char>)
    requires
        from <= c.len(),
    ensures
        r@ == join_seq(vview(c@).skip(from as int), seq!['/']),
{
    let mut rest: Vec<Vec<char>> = Vec::new();
    let mut i = from;
    while i < c.len()
        invariant
            from <= i <= c.len(),
            vview(rest@) == vview(c@).subrange(from as int, i as int),
        decreases c.len() - i,
    {
        let piece = slice_chars(&c[i], 0, c[i].len());
        assert(piece@ =~= c@[i as int]@);
        let ghost before = vview(rest@);
        rest.push(piece);
        assert(vview(rest@) =~= before.push(piece@));
        assert(vview(c@).subrange(from as int, i + 1) =~= vview(c@).subrange(from as int, i as int).push(c@[i as int]@));
        i = i + 1;
    }
    assert(vview(c@).subrange(from as int, c.len() as int) =~= vview(c@).skip(from as int));
    join_chars(&rest, '/')
}

/// The id of the recipe file whose path has the given components; errors
/// name the file as `path`.
pub fn recipe_id_from_path(components: &Vec<String>, path: &str) -> (r: Result<String, DataPackError>)
    ensures
        match recipe_id_from_components(sview(components@)) {
            Ok(id) => r matches Ok(s) && s@ == id,
            Err(m) => r matches Err(e) && recipe_error(e, path@, m),
        },
{
    let c = component_chars(components);
    let ri = match find_last(&c, "recipes") {
        None => {
            return Err(invalid_recipe(path, string_from_str("recipe is outside a namespace recipes directory")));
        },
        Some(i) => i,
    };
    if ri == 0 {
        return Err(invalid_recipe(path, string_from_str("recipe namespace is missing")));
    }
    if ri - 1 == 0 || !chars_eq_str(&c[ri - 2], "data") {
        proof {
            if ri - 1 != 0 {
                assert(vview(c@)[ri - 2] == c@[ri - 2]@);
            }
        }
        return Err(invalid_recipe(path, string_from_str("recipe is outside a data namespace")));
    }
    assert(vview(c@)[ri - 2] == c@[ri - 2]@);
    if ri + 1 >= c.len() {
        return Err(invalid_recipe(path, string_from_str("recipe resource name is missing")));
    }
    let last = c.len() - 1;
    assert(vview(c@).last() == c@[last as int]@);
    if !ends_with_str(&c[last], ".json") {
        return Err(invalid_recipe(path, string_from_str("recipe resource must end with .json")));
    }
    let head = str_chars("data/");
    let mid = str_chars("/recipes/");
    let joined = join_from(&c, ri + 1);
    let t1 = concat_chars(&head, &c[ri - 1]);
    let t2 = concat_chars(&t1, &mid);
    let t3 = concat_chars(&t2, &joined);
    assert(vview(c@)[ri - 1] == c@[ri - 1]@);
    assert(t3@ =~= "data/"@ + vview(c@)[ri - 1] + "/recipes/"@ + join_seq(vview(c@).skip(ri + 1), seq!['/']));
    let text = string_from_chars(&t3);
    recipe_id_from_resource_path(text.as_str(), path)
}

/// The id of the function file whose path has the given components; errors
/// name the file as `path`.
pub fn function_id_from_path(components: &Vec<String>, path: &str) -> (r: Result<String, DataPackError>)
    ensures
        match function_id_from_components(sview(components@)) {
            Ok(id) => r matches Ok(s) && s@ == id,
            Err(m) => r matches Err(e) && function_error(e, path@, m),
        },
{
    let c = component_chars(components);
    let fi = match find_last(&c, "function") {
        None => {
            return Err(invalid_function(path, string_from_str("function is outside a namespace directory")));
        },
        Some(i) => i,
    };
    if fi == 0 {
        return Err(invalid_function(path, string_from_str("function namespace is missing")));
    }
    if fi - 1 == 0 || !chars_eq_str(&c[fi - 2], "data") {
        proof {
            if fi - 1 != 0 {
                assert(vview(c@)[fi - 2] == c@[fi - 2]@);
            }
        }
        return Err(invalid_function(path, string_from_str("function is outside a data namespace")));
    }
    assert(vview(c@)[fi - 2] == c@[fi - 2]@);
    if fi + 1 >= c.len() {
        return Err(invalid_function(path, string_from_str("function resource name is missing")));
    }
    let last = c.len() - 1;
    assert(vview(c@).last() == c@[last as int]@);
    if !ends_with_str(&c[last], ".mcfunction") {
        return Err(invalid_function(path, string_from_str("function resource must end with .mcfunction")));
    }
    let name = resource_name_of(&c, fi + 1, ".mcfunction");
    assert(vview(c@)[fi - 1] == c@[fi - 1]@);
    match identifier_string(&c[fi - 1], &name) {
        Ok(id) => Ok(id),
        Err(m) => Err(invalid_function(path, m)),
    }
}

/// The id of the tag file whose path has the given components; errors name
/// the file as `path`.
pub fn tag_id_from_path(components: &Vec<String>, path: &str) -> (r: Result<String, DataPackError>)
    ensures
        match tag_id_from_components(sview(components@)) {
            Ok(id) => r matches Ok(s) && s@ == id,
            Err(m) => r matches Err(e) && tag_file_error(e, path@, m),
        },
{
    let c = component_chars(components);
    let di = match find_last(&c, "data") {
        None => {
            return Err(invalid_tag(path, string_from_str("tag is outside a data namespace")));
        },
        Some(i) => i,
    };
    if di + 1 >= c.len() {
        return Err(invalid_tag(path, string_from_str("tag namespace is missing")));
    }
    let ti = match find_from(&c, "tags", di + 2) {
        None => {
            return Err(invalid_tag(path, string_from_str("tag is outside a tags directory")));
        },
        Some(i) => i,
    };
    proof {
        lemma_index_from_bounds(vview(c@), "tags"@, (di + 2) as int);
    }
    if ti + 1 >= c.len() {
        return Err(invalid_tag(path, string_from_str("tag registry is missing")));
    }
    if ti + 2 >= c.len() {
        return Err(invalid_tag(path, string_from_str("tag resource name is missing")));
    }
    let last = c.len() - 1;
    assert(vview(c@).last() == c@[last as int]@);
    if !ends_with_str(&c[last], ".json") || (ti + 3 == c.len() && chars_eq_str(&c[last], "tags.json")) {
        return Err(invalid_tag(path, string_from_str("tag resource must end with .json")));
    }
    let name = resource_name_of(&c, ti + 2, ".json");
    let mut colon: Vec<char> = Vec::new();
    colon.push(':');
    let mut slash: Vec<char> = Vec::new();
    slash.push('/');
    let t1 = concat_chars(&c[di + 1], &colon);
    let t2 = concat_chars(&t1, &c[ti + 1]);
    let t3 = concat_chars(&t2, &slash);
    let text = concat_chars(&t3, &name);
    proof {
        assert(vview(c@)[di + 1] == c@[di + 1]@ && vview(c@)[ti + 1] == c@[ti + 1]@);
        assert(text@ =~= vview(c@)[di + 1] + seq![':'] + vview(c@)[ti + 1] + seq!['/'] + name@);
    }
    let text_s = string_from_chars(&text);
    match canonical_tag_id(text_s.as_str()) {
        Ok(id) => Ok(id),
        Err(m) => Err(invalid_tag(path, m)),
    }
}

/// A last index lies inside the sequence.
proof fn lemma_last_index_bounds(c: Seq<Seq<char>>, name: Seq<char>)
    ensures
        last_index_of(c, name) matches Some(i) ==> 0 <= i < c.len(),
    decreases c.len(),
{
    if c.len() > 0 && c.last() != name {
        lemma_last_index_bounds(c.drop_last(), name);
    }
}

/// A found index lies at or after the start and inside the sequence.
proof fn lemma_index_from_bounds(c: Seq<Seq<char>>, name: Seq<char>, start: int)
    ensures
        index_from(c, name, start) matches Some(i) ==> start <= i < c.len(),
    decreases c.len() - start,
{
    if 0 <= start < c.len() && c[start] != name {
        lemma_index_from_bounds(c, name, start + 1);
    }
}

/// Whether `sub` occurs in `s`.
pub open spec fn has_infix(s: Seq<char>, sub: Seq<char>) -> bool {
    exists|i: int| 0 <= i && i + sub.len() <= s.len() && #[trigger] s.subrange(i, i + sub.len()) == sub
}

/// Whether `sub` occurs in `s`.
fn contains_str(s: &Vec<char>, sub: &str) -> (r: bool)
    ensures
        r == has_infix(s@, sub@),
{
    let p = str_chars(sub);
    if p.len() > s.len() {
        return false;
    }
    if p.len() == 0 {
        assert(s@.subrange(0int, 0int + sub@.len()) =~= sub@);
        return true;
    }
    let last = s.len() - p.len();
    let mut i: usize = 0;
    while i <= last
        invariant
            p@ == sub@,
            0 < p.len() <= s.len(),
            last == s.len() - p.len(),
            i <= last + 1,
            forall|j: int| 0 <= j < i ==> #[trigger] s@.subrange(j, j + p.len()) != p@,
        decreases last + 1 - i,
    {
        let piece = slice_chars(s, i, i + p.len());
        if chars_eq(&piece, &p) {
            assert(s@.subrange(i as int, i + p.len()) == sub@);
            return true;
        }
        i = i + 1;
    }
    assert forall|j: int| 0 <= j && j + sub@.len() <= s@.len() implies #[trigger] s@.subrange(j, j + sub@.len()) != sub@ by {
        assert(j < i);
    }
    false
}

/// `s` with every backslash turned into a slash.
pub open spec fn with_slashes(s: Seq<char>) -> Seq<char> {
    s.map_values(|c: char| if c == '\\' { '/' } else { c })
}

/// What an archive entry holds.
#[derive(Clone, Copy, Debug, PartialEq, Eq, Structural)]
pub enum ArchiveEntry {
    /// Not read: unsafe, outside `data/`, or of no known kind.
    Skip,
    Function,
    Structure,
    Recipe,
    Tag,
    /// A loot table, predicate or advancement.
    JsonResource,
}

/// The kind of an archive entry, by its name (with backslashes read as
/// slashes): functions are `.mcfunction` files under a `function`
/// directory, structures `.nbt` files under `structures`, and JSON files
/// under `recipes`, `tags`, `loot_tables`, `predicates` or `advancements`;
/// only safe paths under `data/` are read.
pub open spec fn archive_entry_kind(name: Seq<char>) -> ArchiveEntry {
    let n = with_slashes(name);
    let function = starts_with(n, "data/"@) && has_infix(n, "/function/"@) && ends_with(n, ".mcfunction"@);
    let json = ends_with(n, ".json"@) && (has_infix(n, "/recipes/"@) || has_infix(n, "/tags/"@)
        || has_infix(n, "/loot_tables/"@) || has_infix(n, "/predicates/"@) || has_infix(n, "/advancements/"@));
    let structure = ends_with(n, ".nbt"@) && has_infix(n, "/structures/"@);
    if !safe_archive_path(n) || !starts_with(n, "data/"@) || (!function && !json && !structure) {
        ArchiveEntry::Skip
    } else if function {
        ArchiveEntry::Function
    } else if structure {
        ArchiveEntry::Structure
    } else if has_infix(n, "/recipes/"@) {
        ArchiveEntry::Recipe
    } else if has_infix(n, "/tags/"@) {
        ArchiveEntry::Tag
    } else {
        ArchiveEntry::JsonResource
    }
}

/// The entry name with backslashes turned into slashes.
pub fn normalize_entry_name(name: &str) -> (r: String)
    ensures
        r@ == with_slashes(name@),
{
    let s = str_chars(name);
    let mut out: Vec<char> = Vec::new();
    let mut i: usize = 0;
    while i < s.len()
        invariant
            i <= s.len(),
            s@ == name@,
            out@ == with_slashes(s@.take(i as int)),
        decreases s.len() - i,
    {
        let c = s[i];
        out.push(if c == '\\' { '/' } else { c });
        assert(with_slashes(s@.take(i + 1)) =~= with_slashes(s@.take(i as int)).push(if c == '\\' { '/' } else { c }));
        i = i + 1;
    }
    assert(s@.take(s.len() as int) =~= s@);
    string_from_chars(&out)
}

/// The kind of an archive entry.
pub fn classify_archive_entry(name: &str) -> (r: ArchiveEntry)
    ensures
        r == archive_entry_kind(name@),
{
    let normalized = normalize_entry_name(name);
    let n = str_chars(normalized.as_str());
    let data = starts_with_str(&n, "data/");
    let function = data && contains_str(&n, "/function/") && ends_with_str(&n, ".mcfunction");
    let recipes = contains_str(&n, "/recipes/");
    let tags = contains_str(&n, "/tags/");
    let json = ends_with_str(&n, ".json") && (recipes || tags || contains_str(&n, "/loot_tables/")
        || contains_str(&n, "/predicates/") || contains_str(&n, "/advancements/"));
    let structure = ends_with_str(&n, ".nbt") && contains_str(&n, "/structures/");
    if !is_safe_archive_path(normalized.as_str()) || !data || (!function && !json && !structure) {
        ArchiveEntry::Skip
    } else if function {
        ArchiveEntry::Function
    } else if structure {
        ArchiveEntry::Structure
    } else if recipes {
        ArchiveEntry::Recipe
    } else if tags {
        ArchiveEntry::Tag
    } else {
        ArchiveEntry::JsonResource
    }
}

/// The kind of a JSON value.
#[derive(Clone, Copy, Debug, PartialEq, Eq, Structural)]
pub enum JsonKind {
    Null,
    Bool,
    Number,
    Text,
    Array,
    Object,
}

/// The kinds of the top-level fields that raw resource validation reads
/// (`None` for an absent field).
#[derive(Clone, Copy, Debug, PartialEq, Eq, Structural)]
pub struct ResourceFields {
    pub pools: Option<JsonKind>,
    pub type_field: Option<JsonKind>,
    pub condition: Option<JsonKind>,
    pub criteria: Option<JsonKind>,
    pub parent: Option<JsonKind>,
}

/// Whether an optional field, when present, has kind `k`.
pub open spec fn absent_or(f: Option<JsonKind>, k: JsonKind) -> bool {
    match f {
        Some(x) => x == k,
        None => true,
    }
}

/// Why a raw JSON resource of kind `kind` is refused, if it is: the root
/// must be an object; loot tables need an array `pools` and a string
/// `type` when present; predicates a string `condition` when present;
/// advancements an object `criteria` and a string `parent` when present.
pub open spec fn json_resource_problem(kind: Seq<char>, root: JsonKind, f: ResourceFields) -> Option<Seq<char>> {
    if root != JsonKind::Object {
        Some("resource root must be an object"@)
    } else if kind == "loot_tables"@ {
        if !absent_or(f.pools, JsonKind::Array) {
            Some("pools must be an array"@)
        } else if !absent_or(f.type_field, JsonKind::Text) {
            Some("type must be a string"@)
        } else {
            None
        }
    } else if kind == "predicates"@ {
        if !absent_or(f.condition, JsonKind::Text) {
            Some("condition must be a string"@)
        } else {
            None
        }
    } else if kind == "advancements"@ {
        if f.criteria is None {
            Some("criteria is required"@)
        } else if f.criteria != Some(JsonKind::Object) {
            Some("criteria must be an object"@)
        } else if !absent_or(f.parent, JsonKind::Text) {
            Some("parent must be a string"@)
        } else {
            None
        }
    } else {
        Some("unknown JSON resource kind"@)
    }
}

fn field_is(f: Option<JsonKind>, k: JsonKind) -> (r: bool)
    ensures
        r == absent_or(f, k),
{
    match f {
        Some(x) => x == k,
        None => true,
    }
}

/// Validates the shape of a raw JSON resource; errors name the file as
/// `path` and the resource kind as `kind`.
pub fn check_json_resource(path: &str, kind: &str, root: JsonKind, f: ResourceFields) -> (r: Result<(), DataPackError>)
    ensures
        match json_resource_problem(kind@, root, f) {
            None => r is Ok,
            Some(m) => r matches Err(e) && e matches DataPackError::InvalidResource { kind: k, path: p, message: msg }
                && k@ == kind@ && p@ == path@ && msg@ == m,
        },
{
    let k = str_chars(kind);
    let problem: Option<&str> = if root != JsonKind::Object {
        Some("resource root must be an object")
    } else if chars_eq_str(&k, "loot_tables") {
        if !field_is(f.pools, JsonKind::Array) {
            Some("pools must be an array")
        } else if !field_is(f.type_field, JsonKind::Text) {
            Some("type must be a string")
        } else {
            None
        }
    } else if chars_eq_str(&k, "predicates") {
        if !field_is(f.condition, JsonKind::Text) {
            Some("condition must be a string")
        } else {
            None
        }
    } else if chars_eq_str(&k, "advancements") {
        if f.criteria.is_none() {
            Some("criteria is required")
        } else if !field_is(f.criteria, JsonKind::Object) {
            Some("criteria must be an object")
        } else if !field_is(f.parent, JsonKind::Text) {
            Some("parent must be a string")
        } else {
            None
        }
    } else {
        Some("unknown JSON resource kind")
    };
    match problem {
        None => Ok(()),
        Some(m) => Err(crate::datapack::invalid_resource(path, kind, string_from_str(m))),
    }
}

/// The largest structure file, in bytes.
pub const MAX_STRUCTURE_BYTES: usize = 16777216;

/// A structure file must hold between 1 and 16 MiB.
pub fn structure_size_problem(path: &str, len: usize) -> (r: Result<(), DataPackError>)
    ensures
        (1 <= len <= MAX_STRUCTURE_BYTES) ==> r is Ok,
        !(1 <= len <= MAX_STRUCTURE_BYTES) ==> (r matches Err(e) && e matches DataPackError::InvalidResource { kind: k, path: p, message: msg }
            && k@ == "structures"@ && p@ == path@ && msg@ == "NBT size must be between 1 and 16777216 bytes"@),
{
    if len == 0 || len > MAX_STRUCTURE_BYTES {
        Err(crate::datapack::invalid_resource(path, "structures", string_from_str("NBT size must be between 1 and 16777216 bytes")))
    } else {
        Ok(())
    }
}

/// The id of a raw resource file of `directory` whose path has components
/// `c` and whose name ends with `.` and `extension`, or why none.
pub open spec fn resource_id_from_components(c: Seq<Seq<char>>, directory: Seq<char>, extension: Seq<char>) -> Result<Seq<char>, Seq<char>> {
    match last_index_of(c, "data"@) {
        None => Err("resource is outside data/"@),
        Some(di) => if di + 1 >= c.len() {
            Err("resource namespace is missing"@)
        } else {
            match index_from(c, directory, di + 2) {
                None => Err("resource directory is missing"@),
                Some(ri) => if ri + 1 >= c.len() {
                    Err("resource name is missing"@)
                } else if !ends_with(c.last(), seq!['.'] + extension) {
                    Err("invalid resource extension"@)
                } else {
                    identified(c[di + 1], resource_name(c.skip(ri + 1), seq!['.'] + extension))
                },
            }
        },
    }
}

/// The id of a raw resource file of `directory` whose path has the given
/// components; errors name the file as `path` and the kind as `directory`.
pub fn resource_id_from_path(components: &Vec<String>, path: &str, directory: &str, extension: &str) -> (r: Result<String, DataPackError>)
    ensures
        match resource_id_from_components(sview(components@), directory@, extension@) {
            Ok(id) => r matches Ok(s) && s@ == id,
            Err(m) => r matches Err(e) && e matches DataPackError::InvalidResource { kind: k, path: p, message: msg }
                && k@ == directory@ && p@ == path@ && msg@ == m,
        },
{
    let c = component_chars(components);
    let di = match find_last(&c, "data") {
        None => {
            return Err(crate::datapack::invalid_resource(path, directory, string_from_str("resource is outside data/")));
        },
        Some(i) => i,
    };
    if di + 1 >= c.len() {
        return Err(crate::datapack::invalid_resource(path, directory, string_from_str("resource namespace is missing")));
    }
    let ri = match find_from(&c, directory, di + 2) {
        None => {
            return Err(crate::datapack::invalid_resource(path, directory, string_from_str("resource directory is missing")));
        },
        Some(i) => i,
    };
    proof {
        lemma_index_from_bounds(vview(c@), directory@, (di + 2) as int);
    }
    if ri + 1 >= c.len() {
        return Err(crate::datapack::invalid_resource(path, directory, string_from_str("resource name is missing")));
    }
    let mut dot: Vec<char> = Vec::new();
    dot.push('.');
    let ext = str_chars(extension);
    let suffix = concat_chars(&dot, &ext);
    let suffix_s = string_from_chars(&suffix);
    let last = c.len() - 1;
    assert(vview(c@).last() == c@[last as int]@);
    if !ends_with_str(&c[last], suffix_s.as_str()) {
        return Err(crate::datapack::invalid_resource(path, directory, string_from_str("invalid resource extension")));
    }
    let name = resource_name_of(&c, ri + 1, suffix_s.as_str());
    assert(vview(c@)[di + 1] == c@[di + 1]@);
    match identifier_string(&c[di + 1], &name) {
        Ok(id) => Ok(id),
        Err(m) => Err(crate::datapack::invalid_resource(path, directory, m)),
    }
}

} // verus!
