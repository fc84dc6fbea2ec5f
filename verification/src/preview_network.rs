//! What a preview material says, read line by line: which textures feed which inputs.

use crate::lines::{
    are_lines, counted_lines_stand, is_line, lines_read_back, missing_lines_are_not_counted,
    of_lines, pieces_end, pieces_go_on, single_lines_are_counted_once, times, times_add_up,
};
use crate::preview_material::{
    asset_text, either, material_document, normal_map_rows, optional_shader, surface_inputs,
    texture_shader, texture_shaders,
};
use crate::stage_materials::TexturesModel;
use crate::text::{
    characters_are_replaced_one_by_one, replaced, replaced_characters_are_gone, split,
};
use crate::usda::{lines_follow, one_line, three_lines, two_lines};
use vstd::prelude::*;

verus! {

/// An asset goes from character to character: a backslash becomes a slash, the sign that
/// closes an asset is written by its number, and every other character stays.
pub proof fn assets_go_from_character_to_character(a: Seq<char>, b: Seq<char>, c: char)
    ensures
        asset_text(a + b) == asset_text(a) + asset_text(b),
        asset_text(seq!['\\']) == "/"@,
        asset_text(seq!['@']) == "%40"@,
        c != '\\' && c != '@' ==> asset_text(seq![c]) == seq![c],
        asset_text(Seq::empty()) == Seq::<char>::empty(),
{
    reveal_strlit("\\");
    reveal_strlit("/");
    reveal_strlit("@");
    reveal_strlit("%40");
    assert("\\"@ =~= seq!['\\']);
    assert("/"@ =~= seq!['/']);
    assert("@"@ =~= seq!['@']);
    let x = replaced(a, "\\"@, "/"@);
    let y = replaced(b, "\\"@, "/"@);
    characters_are_replaced_one_by_one(a, b, '\\', "/"@, c);
    characters_are_replaced_one_by_one(a, b, '\\', "/"@, '@');
    characters_are_replaced_one_by_one(x, y, '@', "%40"@, c);
    characters_are_replaced_one_by_one(x, y, '@', "%40"@, '/');
}

/// Nothing in an asset closes it, and an asset stays on one line where its path does.
pub proof fn assets_are_not_cut_short(path: Seq<char>)
    ensures
        forall|i: int|
            0 <= i < asset_text(path).len() ==> #[trigger] asset_text(path)[i] != '@'
                && asset_text(path)[i] != '\\',
        is_line(path) ==> is_line(asset_text(path)),
{
    reveal_strlit("\\");
    reveal_strlit("/");
    reveal_strlit("@");
    reveal_strlit("%40");
    assert("\\"@ =~= seq!['\\']);
    assert("@"@ =~= seq!['@']);
    let x = replaced(path, "\\"@, "/"@);
    assert forall|i: int| 0 <= i < asset_text(path).len() implies #[trigger] asset_text(path)[i]
        != '@' && asset_text(path)[i] != '\\'
            && (is_line(path) ==> asset_text(path)[i] != '\n') by {
        let d = asset_text(path)[i];
        replaced_characters_are_gone(x, '@', "%40"@, i);
        if !"%40"@.contains(d) {
            let k = choose|k: int| 0 <= k < x.len() && x[k] == d;
            replaced_characters_are_gone(path, '\\', "/"@, k);
        }
    }
}

/// The line that defines a shader.
pub open spec fn shader_line(name: Seq<char>) -> Seq<char> {
    "    def Shader \""@ + name + "\""@
}

/// The line that connects an input of the surface to an output of a shader.
pub open spec fn connection(
    kind: Seq<char>,
    input: Seq<char>,
    name: Seq<char>,
    output: Seq<char>,
) -> Seq<char> {
    "        "@ + kind + " inputs:"@ + input + ".connect = </Material/"@ + name + ".outputs:"@
        + output + ">"@
}

/// The shader to which a line connects: what stands between `</Material/` and a dot.
pub open spec fn connected_shader(line: Seq<char>) -> Seq<char> {
    split(split(line, '<').last(), '.')[0].skip(10)
}

/// Whether a line connects something.
pub open spec fn is_connection(line: Seq<char>) -> bool {
    line.len() > 0 && line.last() == '>'
}

/// Whether lines, from one on, define a shader that reads a texture.
pub open spec fn reads_texture(
    lines: Seq<Seq<char>>,
    at: int,
    name: Seq<char>,
    path: Seq<char>,
    color_space: Seq<char>,
    normal_map: bool,
) -> bool {
    let file = if normal_map {
        at + 5
    } else {
        at + 3
    };
    &&& lines[at] == shader_line(name)
    &&& lines[at + 1] == "    {"@
    &&& lines[at + 2] == "        uniform token info:id = \"UsdUVTexture\""@
    &&& normal_map ==> lines[at + 3] == "        float4 inputs:bias = (-1, -1, -1, -1)"@ && lines[at
        + 4] == "        float4 inputs:scale = (2, 2, 2, 2)"@
    &&& lines[file] == "        asset inputs:file = @"@ + asset_text(path) + "@"@
    &&& lines[file + 1] == "        token inputs:sourceColorSpace = \""@ + color_space + "\""@
    &&& lines[file + 2] == "        float2 inputs:st.connect = </Material/stReader.outputs:result>"@
    &&& lines[file + 3] == "        token inputs:wrapS = \"repeat\""@
    &&& lines[file + 4] == "        token inputs:wrapT = \"repeat\""@
    &&& lines[file + 5] == "        float outputs:r"@
    &&& lines[file + 6] == "        float3 outputs:rgb"@
    &&& lines[file + 7] == "    }"@
}

/// Whether a line stands between two others.
pub open spec fn stands_between(
    lines: Seq<Seq<char>>,
    from: int,
    to: int,
    line: Seq<char>,
) -> bool {
    exists|i: int| from < i < to && #[trigger] lines[i] == line
}

/// Whether a shader that reads a texture is defined anywhere.
pub open spec fn is_read(
    lines: Seq<Seq<char>>,
    name: Seq<char>,
    path: Seq<char>,
    color_space: Seq<char>,
    normal_map: bool,
) -> bool {
    exists|at: int|
        0 < at < lines.len() && #[trigger] reads_texture(
            lines,
            at,
            name,
            path,
            color_space,
            normal_map,
        )
}

/// Whether an input of the surface, whose block ends at a line, is fed by its own texture:
/// where there is one, the input is connected once, to a shader that is defined once and reads
/// that texture; where there is none, neither is there.
pub open spec fn is_fed(
    lines: Seq<Seq<char>>,
    end: int,
    kind: Seq<char>,
    input: Seq<char>,
    name: Seq<char>,
    output: Seq<char>,
    path: Option<Seq<char>>,
    color_space: Seq<char>,
    normal_map: bool,
) -> bool {
    let line = connection(kind, input, name, output);
    match path {
        Some(p) => {
            &&& times(lines, line) == 1
            &&& stands_between(lines, 12, end, line)
            &&& times(lines, shader_line(name)) == 1
            &&& is_read(lines, name, p, color_space, normal_map)
        },
        None => times(lines, line) == 0 && times(lines, shader_line(name)) == 0,
    }
}

/// One for something, none for nothing.
pub open spec fn one_if(path: Option<Seq<char>>) -> int {
    if path is Some {
        1
    } else {
        0
    }
}

/// The line that closes the block of the surface.
pub open spec fn surface_end(t: TexturesModel) -> int {
    17 + one_if(t.normal) + one_if(t.emission) + one_if(t.occlusion)
}

/// Whether the texts of a material stay on one line.
pub open spec fn is_plain(t: TexturesModel) -> bool {
    &&& is_line(t.uv_primvar)
    &&& t.base_color matches Some(p) ==> is_line(p)
    &&& t.metallic matches Some(p) ==> is_line(p)
    &&& t.roughness matches Some(p) ==> is_line(p)
    &&& t.normal matches Some(p) ==> is_line(p)
    &&& t.emission matches Some(p) ==> is_line(p)
    &&& t.occlusion matches Some(p) ==> is_line(p)
}

/// Whether a line defines a shader.
spec fn defines(line: Seq<char>) -> bool {
    line.len() > 8 && line[4] == 'd' && line[5] == 'e' && line[7] == ' '
}

/// Whether a line connects to a colour or a number.
spec fn feeds(line: Seq<char>) -> bool {
    line.len() > 8 && line.last() == '>' && (line[line.len() - 2] == 'r' || line[line.len() - 2]
        == 'b')
}

/// Whether a line neither defines nor connects anything.
spec fn is_quiet(line: Seq<char>) -> bool {
    is_line(line) && !defines(line) && !is_connection(line)
}

/// A line that defines a shader is one, and tells its name.
proof fn shader_lines_define(name: Seq<char>, other: Seq<char>)
    ensures
        defines(shader_line(name)),
        !is_connection(shader_line(name)),
        shader_line(name).len() == name.len() + 17,
        is_line(name) ==> is_line(shader_line(name)),
        shader_line(name) == shader_line(other) ==> name == other,
{
    reveal_strlit("    def Shader \"");
    reveal_strlit("\"");
    assert(shader_line(name).subrange(16, shader_line(name).len() - 1) =~= name);
    assert(shader_line(other).subrange(16, shader_line(other).len() - 1) =~= other);
}

/// The shader of a connection is read off its line.
proof fn connections_name_their_shader(front: Seq<char>, name: Seq<char>, rest: Seq<char>)
    requires
        forall|i: int| 0 <= i < front.len() ==> #[trigger] front[i] != '<',
        forall|i: int| 0 <= i < name.len() ==> #[trigger] name[i] != '<' && name[i] != '.',
        forall|i: int| 0 <= i < rest.len() ==> #[trigger] rest[i] != '<' && rest[i] != '.',
    ensures
        connected_shader(front + "</Material/"@ + name + "."@ + rest) == name,
{
    reveal_strlit("</Material/");
    reveal_strlit("/Material/");
    reveal_strlit(".");
    let empty = Seq::<char>::empty();
    let head = "/Material/"@ + name;
    let tail = head + seq!['.'] + rest;
    let line = front + "</Material/"@ + name + "."@ + rest;
    assert(split(empty, '<') =~= seq![empty]);
    assert(split(empty, '.') =~= seq![empty]);
    pieces_go_on(empty, front, '<');
    pieces_end(empty + front, '<');
    assert forall|i: int| 0 <= i < tail.len() implies #[trigger] tail[i] != '<' by {
        if i >= head.len() + 1 {
            assert(tail[i] == rest[i - head.len() - 1]);
        } else if 10 <= i < head.len() {
            assert(tail[i] == name[i - 10]);
        }
    }
    pieces_go_on(empty + front + seq!['<'], tail, '<');
    assert(empty + front + seq!['<'] + tail =~= line);
    assert(empty + tail =~= tail);
    assert(split(line, '<').last() == tail);
    assert forall|i: int| 0 <= i < head.len() implies #[trigger] head[i] != '.' by {
        if i >= 10 {
            assert(head[i] == name[i - 10]);
        }
    }
    pieces_go_on(empty, head, '.');
    pieces_end(empty + head, '.');
    pieces_go_on(empty + head + seq!['.'], rest, '.');
    assert(empty + head =~= head);
    assert(empty + head + seq!['.'] + rest =~= tail);
    assert(split(tail, '.')[0] == head);
    assert(head.skip(10) =~= name);
}

/// Lists without a shader and without a connection.
proof fn quiet_lists(list: Seq<Seq<char>>, name: Seq<char>, line: Seq<char>)
    requires
        forall|i: int| 0 <= i < list.len() ==> is_quiet(#[trigger] list[i]),
        is_connection(line),
    ensures
        times(list, shader_line(name)) == 0,
        times(list, line) == 0,
        are_lines(list),
{
    shader_lines_define(name, name);
    missing_lines_are_not_counted(list, shader_line(name));
    missing_lines_are_not_counted(list, line);
}

/// Six lists of lines, one after the other.
proof fn six_lists(
    a: Seq<Seq<char>>,
    b: Seq<Seq<char>>,
    c: Seq<Seq<char>>,
    d: Seq<Seq<char>>,
    e: Seq<Seq<char>>,
    f: Seq<Seq<char>>,
    x: Seq<char>,
    y: Seq<char>,
)
    requires
        are_lines(a),
        are_lines(b),
        are_lines(c),
        are_lines(d),
        are_lines(e),
        are_lines(f),
    ensures
        are_lines(a + b + c + d + e + f),
        of_lines(a + b + c + d + e + f) == of_lines(a) + of_lines(b) + of_lines(c) + of_lines(d)
            + of_lines(e) + of_lines(f),
        times(a + b + c + d + e + f, x) == times(a, x) + times(b, x) + times(c, x) + times(d, x)
            + times(e, x) + times(f, x),
        times(a + b + c + d + e + f, y) == times(a, y) + times(b, y) + times(c, y) + times(d, y)
            + times(e, y) + times(f, y),
{
    lines_follow(a, b);
    lines_follow(a + b, c);
    lines_follow(a + b + c, d);
    lines_follow(a + b + c + d, e);
    lines_follow(a + b + c + d + e, f);
    times_add_up(a, b, x);
    times_add_up(a + b, c, x);
    times_add_up(a + b + c, d, x);
    times_add_up(a + b + c + d, e, x);
    times_add_up(a + b + c + d + e, f, x);
    times_add_up(a, b, y);
    times_add_up(a + b, c, y);
    times_add_up(a + b + c, d, y);
    times_add_up(a + b + c + d, e, y);
    times_add_up(a + b + c + d + e, f, y);
}

/// What stands in six lists stands in one of them.
proof fn one_of_six(
    a: Seq<Seq<char>>,
    b: Seq<Seq<char>>,
    c: Seq<Seq<char>>,
    d: Seq<Seq<char>>,
    e: Seq<Seq<char>>,
    f: Seq<Seq<char>>,
    i: int,
)
    requires
        0 <= i < (a + b + c + d + e + f).len(),
    ensures
        ({
            let line = (a + b + c + d + e + f)[i];
            ||| a.contains(line)
            ||| b.contains(line)
            ||| c.contains(line)
            ||| d.contains(line)
            ||| e.contains(line)
            ||| f.contains(line)
        }),
{
    let all = a + b + c + d + e + f;
    if i < a.len() {
        assert(a[i] == all[i]);
    } else if i < a.len() + b.len() {
        assert(b[i - a.len()] == all[i]);
    } else if i < a.len() + b.len() + c.len() {
        assert(c[i - a.len() - b.len()] == all[i]);
    } else if i < a.len() + b.len() + c.len() + d.len() {
        assert(d[i - a.len() - b.len() - c.len()] == all[i]);
    } else if i < a.len() + b.len() + c.len() + d.len() + e.len() {
        assert(e[i - a.len() - b.len() - c.len() - d.len()] == all[i]);
    } else {
        assert(f[i - a.len() - b.len() - c.len() - d.len() - e.len()] == all[i]);
    }
}

/// The line that connects this input.
proof fn base_color_line()
    ensures
        ({
            let line = connection("color3f"@, "diffuseColor"@, "BaseColorTexture"@, "rgb"@);
            &&& "        color3f inputs:diffuseColor.connect = </Material/BaseColorTexture.outputs:rgb>\n"@
                == line + seq!['\n']
            &&& is_line(line)
            &&& feeds(line)
            &&& is_connection(line)
            &&& !defines(line)
            &&& line.len() > 24
            &&& line[8] == 'c'
            &&& line[21] == 's'
            &&& line[23] == 'd'
            &&& connected_shader(line) == "BaseColorTexture"@
            &&& is_line("BaseColorTexture"@)
            &&& "BaseColorTexture"@.len() > 0 && "BaseColorTexture"@[0] == 'B'
        }),
{
    reveal_strlit("        color3f inputs:diffuseColor.connect = </Material/BaseColorTexture.outputs:rgb>");
    reveal_strlit("        color3f inputs:diffuseColor.connect = </Material/BaseColorTexture.outputs:rgb>\n");
    reveal_strlit("        ");
    reveal_strlit("color3f");
    reveal_strlit(" inputs:");
    reveal_strlit("diffuseColor");
    reveal_strlit(".connect = </Material/");
    reveal_strlit("BaseColorTexture");
    reveal_strlit(".outputs:");
    reveal_strlit("rgb");
    reveal_strlit(">");
    reveal_strlit("        color3f inputs:diffuseColor.connect = ");
    reveal_strlit("outputs:rgb>");
    reveal_strlit("</Material/");
    reveal_strlit(".");
    let line = connection("color3f"@, "diffuseColor"@, "BaseColorTexture"@, "rgb"@);
    assert(line
        =~= "        color3f inputs:diffuseColor.connect = </Material/BaseColorTexture.outputs:rgb>"@);
    assert("        color3f inputs:diffuseColor.connect = </Material/BaseColorTexture.outputs:rgb>\n"@
        =~= line + seq!['\n']);
    let front = "        color3f inputs:diffuseColor.connect = "@;
    let rest = "outputs:rgb>"@;
    assert(line =~= front + "</Material/"@ + "BaseColorTexture"@ + "."@ + rest);
    connections_name_their_shader(front, "BaseColorTexture"@, rest);
}

/// The line that connects this input.
proof fn metallic_line()
    ensures
        ({
            let line = connection("float"@, "metallic"@, "MetallicTexture"@, "r"@);
            &&& "        float inputs:metallic.connect = </Material/MetallicTexture.outputs:r>\n"@
                == line + seq!['\n']
            &&& is_line(line)
            &&& feeds(line)
            &&& is_connection(line)
            &&& !defines(line)
            &&& line.len() > 24
            &&& line[8] == 'f'
            &&& line[21] == 'm'
            &&& line[23] == 't'
            &&& connected_shader(line) == "MetallicTexture"@
            &&& is_line("MetallicTexture"@)
            &&& "MetallicTexture"@.len() > 0 && "MetallicTexture"@[0] == 'M'
        }),
{
    reveal_strlit("        float inputs:metallic.connect = </Material/MetallicTexture.outputs:r>");
    reveal_strlit("        float inputs:metallic.connect = </Material/MetallicTexture.outputs:r>\n");
    reveal_strlit("        ");
    reveal_strlit("float");
    reveal_strlit(" inputs:");
    reveal_strlit("metallic");
    reveal_strlit(".connect = </Material/");
    reveal_strlit("MetallicTexture");
    reveal_strlit(".outputs:");
    reveal_strlit("r");
    reveal_strlit(">");
    reveal_strlit("        float inputs:metallic.connect = ");
    reveal_strlit("outputs:r>");
    reveal_strlit("</Material/");
    reveal_strlit(".");
    let line = connection("float"@, "metallic"@, "MetallicTexture"@, "r"@);
    assert(line
        =~= "        float inputs:metallic.connect = </Material/MetallicTexture.outputs:r>"@);
    assert("        float inputs:metallic.connect = </Material/MetallicTexture.outputs:r>\n"@
        =~= line + seq!['\n']);
    let front = "        float inputs:metallic.connect = "@;
    let rest = "outputs:r>"@;
    assert(line =~= front + "</Material/"@ + "MetallicTexture"@ + "."@ + rest);
    connections_name_their_shader(front, "MetallicTexture"@, rest);
}

/// The line that connects this input.
proof fn roughness_line()
    ensures
        ({
            let line = connection("float"@, "roughness"@, "RoughnessTexture"@, "r"@);
            &&& "        float inputs:roughness.connect = </Material/RoughnessTexture.outputs:r>\n"@
                == line + seq!['\n']
            &&& is_line(line)
            &&& feeds(line)
            &&& is_connection(line)
            &&& !defines(line)
            &&& line.len() > 24
            &&& line[8] == 'f'
            &&& line[21] == 'r'
            &&& line[23] == 'u'
            &&& connected_shader(line) == "RoughnessTexture"@
            &&& is_line("RoughnessTexture"@)
            &&& "RoughnessTexture"@.len() > 0 && "RoughnessTexture"@[0] == 'R'
        }),
{
    reveal_strlit("        float inputs:roughness.connect = </Material/RoughnessTexture.outputs:r>");
    reveal_strlit("        float inputs:roughness.connect = </Material/RoughnessTexture.outputs:r>\n");
    reveal_strlit("        ");
    reveal_strlit("float");
    reveal_strlit(" inputs:");
    reveal_strlit("roughness");
    reveal_strlit(".connect = </Material/");
    reveal_strlit("RoughnessTexture");
    reveal_strlit(".outputs:");
    reveal_strlit("r");
    reveal_strlit(">");
    reveal_strlit("        float inputs:roughness.connect = ");
    reveal_strlit("outputs:r>");
    reveal_strlit("</Material/");
    reveal_strlit(".");
    let line = connection("float"@, "roughness"@, "RoughnessTexture"@, "r"@);
    assert(line
        =~= "        float inputs:roughness.connect = </Material/RoughnessTexture.outputs:r>"@);
    assert("        float inputs:roughness.connect = </Material/RoughnessTexture.outputs:r>\n"@
        =~= line + seq!['\n']);
    let front = "        float inputs:roughness.connect = "@;
    let rest = "outputs:r>"@;
    assert(line =~= front + "</Material/"@ + "RoughnessTexture"@ + "."@ + rest);
    connections_name_their_shader(front, "RoughnessTexture"@, rest);
}

/// The line that connects this input.
proof fn normal_line()
    ensures
        ({
            let line = connection("normal3f"@, "normal"@, "NormalTexture"@, "rgb"@);
            &&& "        normal3f inputs:normal.connect = </Material/NormalTexture.outputs:rgb>\n"@
                == line + seq!['\n']
            &&& is_line(line)
            &&& feeds(line)
            &&& is_connection(line)
            &&& !defines(line)
            &&& line.len() > 24
            &&& line[8] == 'n'
            &&& line[21] == 't'
            &&& line[23] == ':'
            &&& connected_shader(line) == "NormalTexture"@
            &&& is_line("NormalTexture"@)
            &&& "NormalTexture"@.len() > 0 && "NormalTexture"@[0] == 'N'
        }),
{
    reveal_strlit("        normal3f inputs:normal.connect = </Material/NormalTexture.outputs:rgb>");
    reveal_strlit("        normal3f inputs:normal.connect = </Material/NormalTexture.outputs:rgb>\n");
    reveal_strlit("        ");
    reveal_strlit("normal3f");
    reveal_strlit(" inputs:");
    reveal_strlit("normal");
    reveal_strlit(".connect = </Material/");
    reveal_strlit("NormalTexture");
    reveal_strlit(".outputs:");
    reveal_strlit("rgb");
    reveal_strlit(">");
    reveal_strlit("        normal3f inputs:normal.connect = ");
    reveal_strlit("outputs:rgb>");
    reveal_strlit("</Material/");
    reveal_strlit(".");
    let line = connection("normal3f"@, "normal"@, "NormalTexture"@, "rgb"@);
    assert(line
        =~= "        normal3f inputs:normal.connect = </Material/NormalTexture.outputs:rgb>"@);
    assert("        normal3f inputs:normal.connect = </Material/NormalTexture.outputs:rgb>\n"@
        =~= line + seq!['\n']);
    let front = "        normal3f inputs:normal.connect = "@;
    let rest = "outputs:rgb>"@;
    assert(line =~= front + "</Material/"@ + "NormalTexture"@ + "."@ + rest);
    connections_name_their_shader(front, "NormalTexture"@, rest);
}

/// The line that connects this input.
proof fn emission_line()
    ensures
        ({
            let line = connection("color3f"@, "emissiveColor"@, "EmissionTexture"@, "rgb"@);
            &&& "        color3f inputs:emissiveColor.connect = </Material/EmissionTexture.outputs:rgb>\n"@
                == line + seq!['\n']
            &&& is_line(line)
            &&& feeds(line)
            &&& is_connection(line)
            &&& !defines(line)
            &&& line.len() > 24
            &&& line[8] == 'c'
            &&& line[21] == 's'
            &&& line[23] == 'e'
            &&& connected_shader(line) == "EmissionTexture"@
            &&& is_line("EmissionTexture"@)
            &&& "EmissionTexture"@.len() > 0 && "EmissionTexture"@[0] == 'E'
        }),
{
    reveal_strlit("        color3f inputs:emissiveColor.connect = </Material/EmissionTexture.outputs:rgb>");
    reveal_strlit("        color3f inputs:emissiveColor.connect = </Material/EmissionTexture.outputs:rgb>\n");
    reveal_strlit("        ");
    reveal_strlit("color3f");
    reveal_strlit(" inputs:");
    reveal_strlit("emissiveColor");
    reveal_strlit(".connect = </Material/");
    reveal_strlit("EmissionTexture");
    reveal_strlit(".outputs:");
    reveal_strlit("rgb");
    reveal_strlit(">");
    reveal_strlit("        color3f inputs:emissiveColor.connect = ");
    reveal_strlit("outputs:rgb>");
    reveal_strlit("</Material/");
    reveal_strlit(".");
    let line = connection("color3f"@, "emissiveColor"@, "EmissionTexture"@, "rgb"@);
    assert(line
        =~= "        color3f inputs:emissiveColor.connect = </Material/EmissionTexture.outputs:rgb>"@);
    assert("        color3f inputs:emissiveColor.connect = </Material/EmissionTexture.outputs:rgb>\n"@
        =~= line + seq!['\n']);
    let front = "        color3f inputs:emissiveColor.connect = "@;
    let rest = "outputs:rgb>"@;
    assert(line =~= front + "</Material/"@ + "EmissionTexture"@ + "."@ + rest);
    connections_name_their_shader(front, "EmissionTexture"@, rest);
}

/// The line that connects this input.
proof fn occlusion_line()
    ensures
        ({
            let line = connection("float"@, "occlusion"@, "OcclusionTexture"@, "r"@);
            &&& "        float inputs:occlusion.connect = </Material/OcclusionTexture.outputs:r>\n"@
                == line + seq!['\n']
            &&& is_line(line)
            &&& feeds(line)
            &&& is_connection(line)
            &&& !defines(line)
            &&& line.len() > 24
            &&& line[8] == 'f'
            &&& line[21] == 'o'
            &&& line[23] == 'c'
            &&& connected_shader(line) == "OcclusionTexture"@
            &&& is_line("OcclusionTexture"@)
            &&& "OcclusionTexture"@.len() > 0 && "OcclusionTexture"@[0] == 'O'
        }),
{
    reveal_strlit("        float inputs:occlusion.connect = </Material/OcclusionTexture.outputs:r>");
    reveal_strlit("        float inputs:occlusion.connect = </Material/OcclusionTexture.outputs:r>\n");
    reveal_strlit("        ");
    reveal_strlit("float");
    reveal_strlit(" inputs:");
    reveal_strlit("occlusion");
    reveal_strlit(".connect = </Material/");
    reveal_strlit("OcclusionTexture");
    reveal_strlit(".outputs:");
    reveal_strlit("r");
    reveal_strlit(">");
    reveal_strlit("        float inputs:occlusion.connect = ");
    reveal_strlit("outputs:r>");
    reveal_strlit("</Material/");
    reveal_strlit(".");
    let line = connection("float"@, "occlusion"@, "OcclusionTexture"@, "r"@);
    assert(line
        =~= "        float inputs:occlusion.connect = </Material/OcclusionTexture.outputs:r>"@);
    assert("        float inputs:occlusion.connect = </Material/OcclusionTexture.outputs:r>\n"@
        =~= line + seq!['\n']);
    let front = "        float inputs:occlusion.connect = "@;
    let rest = "outputs:r>"@;
    assert(line =~= front + "</Material/"@ + "OcclusionTexture"@ + "."@ + rest);
    connections_name_their_shader(front, "OcclusionTexture"@, rest);
}

/// What needs to be told of a normal map, as lines.
spec fn range_lines(normal_map: bool) -> Seq<Seq<char>> {
    if normal_map {
        seq!["        float4 inputs:bias = (-1, -1, -1, -1)"@,
            "        float4 inputs:scale = (2, 2, 2, 2)"@]
    } else {
        Seq::empty()
    }
}

/// The lines of a shader that reads a texture, from the one above it on.
#[verifier::opaque]
spec fn shader_block(
    name: Seq<char>,
    path: Seq<char>,
    color_space: Seq<char>,
    normal_map: bool,
) -> Seq<Seq<char>> {
    seq![""@, shader_line(name), "    {"@]
        + seq!["        uniform token info:id = \"UsdUVTexture\""@] + range_lines(normal_map)
        + seq![
        "        asset inputs:file = @"@ + asset_text(path) + "@"@,
        "        token inputs:sourceColorSpace = \""@ + color_space + "\""@,
        "        float2 inputs:st.connect = </Material/stReader.outputs:result>"@,
    ] + seq![
        "        token inputs:wrapS = \"repeat\""@,
        "        token inputs:wrapT = \"repeat\""@,
        "        float outputs:r"@,
    ] + seq!["        float3 outputs:rgb"@, "    }"@]
}

/// The line that connects the place on a texture.
proof fn place_line()
    ensures
        ({
            let line = "        float2 inputs:st.connect = </Material/stReader.outputs:result>"@;
            is_line(line) && is_connection(line) && !feeds(line) && !defines(line)
                && connected_shader(line) == "stReader"@
        }),
{
    reveal_strlit("        float2 inputs:st.connect = </Material/stReader.outputs:result>");
    reveal_strlit("        float2 inputs:st.connect = ");
    reveal_strlit("outputs:result>");
    reveal_strlit("</Material/");
    reveal_strlit("stReader");
    reveal_strlit(".");
    let front = "        float2 inputs:st.connect = "@;
    let rest = "outputs:result>"@;
    assert("        float2 inputs:st.connect = </Material/stReader.outputs:result>"@ =~= front
        + "</Material/"@ + "stReader"@ + "."@ + rest);
    connections_name_their_shader(front, "stReader"@, rest);
}

/// What follows the colour space of a texture, as lines.
proof fn shader_tail_is_lines()
    ensures
        "\"\n        float2 inputs:st.connect = </Material/stReader.outputs:result>\n        token inputs:wrapS = \"repeat\"\n        token inputs:wrapT = \"repeat\"\n        float outputs:r\n        float3 outputs:rgb\n    }\n"@
            == "\""@ + seq!['\n']
            + ("        float2 inputs:st.connect = </Material/stReader.outputs:result>"@
            + seq!['\n'] + "        token inputs:wrapS = \"repeat\""@ + seq!['\n']
            + "        token inputs:wrapT = \"repeat\""@ + seq!['\n'] + "        float outputs:r"@
            + seq!['\n'] + "        float3 outputs:rgb"@ + seq!['\n'] + "    }"@ + seq!['\n']),
        is_quiet("        token inputs:wrapS = \"repeat\""@),
        is_quiet("        token inputs:wrapT = \"repeat\""@),
        is_quiet("        float outputs:r"@),
        is_quiet("        float3 outputs:rgb"@),
        is_quiet("    }"@),
        "    }"@.len() == 5,
{
    reveal_strlit("\"\n        float2 inputs:st.connect = </Material/stReader.outputs:result>\n        token inputs:wrapS = \"repeat\"\n        token inputs:wrapT = \"repeat\"\n        float outputs:r\n        float3 outputs:rgb\n    }\n");
    reveal_strlit("\"");
    reveal_strlit("        float2 inputs:st.connect = </Material/stReader.outputs:result>");
    reveal_strlit("        token inputs:wrapS = \"repeat\"");
    reveal_strlit("        token inputs:wrapT = \"repeat\"");
    reveal_strlit("        float outputs:r");
    reveal_strlit("        float3 outputs:rgb");
    reveal_strlit("    }");
    assert("\"\n        float2 inputs:st.connect = </Material/stReader.outputs:result>\n        token inputs:wrapS = \"repeat\"\n        token inputs:wrapT = \"repeat\"\n        float outputs:r\n        float3 outputs:rgb\n    }\n"@
        =~= "\""@ + seq!['\n']
        + ("        float2 inputs:st.connect = </Material/stReader.outputs:result>"@ + seq!['\n']
        + "        token inputs:wrapS = \"repeat\""@ + seq!['\n']
        + "        token inputs:wrapT = \"repeat\""@ + seq!['\n'] + "        float outputs:r"@
        + seq!['\n'] + "        float3 outputs:rgb"@ + seq!['\n'] + "    }"@ + seq!['\n']));
}

/// The rows of a normal map are lines.
proof fn range_is_lines(normal_map: bool)
    ensures
        normal_map_rows(normal_map) == of_lines(range_lines(normal_map)),
        forall|i: int|
            0 <= i < range_lines(normal_map).len() ==> is_quiet(
                #[trigger] range_lines(normal_map)[i],
            ),
{
    reveal_strlit("        float4 inputs:bias = (-1, -1, -1, -1)");
    reveal_strlit("        float4 inputs:scale = (2, 2, 2, 2)");
    reveal_strlit("        float4 inputs:bias = (-1, -1, -1, -1)\n        float4 inputs:scale = (2, 2, 2, 2)\n");
    if normal_map {
        two_lines("        float4 inputs:bias = (-1, -1, -1, -1)"@,
            "        float4 inputs:scale = (2, 2, 2, 2)"@);
        assert(normal_map_rows(true) =~= "        float4 inputs:bias = (-1, -1, -1, -1)"@
            + seq!['\n'] + "        float4 inputs:scale = (2, 2, 2, 2)"@ + seq!['\n']);
    }
}

/// What stands above the file of a texture, as lines.
proof fn shader_head_is_lines(name: Seq<char>)
    ensures
        "\n    def Shader \""@ + name
            + "\"\n    {\n        uniform token info:id = \"UsdUVTexture\"\n"@ == ""@ + seq!['\n']
            + shader_line(name) + seq!['\n']
            + "    {"@ + seq!['\n'] + "        uniform token info:id = \"UsdUVTexture\""@
                + seq!['\n'],
        is_quiet(""@),
        is_quiet("    {"@),
        "    {"@.len() == 5,
        is_quiet("        uniform token info:id = \"UsdUVTexture\""@),
{
    reveal_strlit("\n    def Shader \"");
    reveal_strlit("\"\n    {\n        uniform token info:id = \"UsdUVTexture\"\n");
    reveal_strlit("");
    reveal_strlit("    def Shader \"");
    reveal_strlit("\"");
    reveal_strlit("    {");
    reveal_strlit("        uniform token info:id = \"UsdUVTexture\"");
    assert("\n    def Shader \""@ + name
        + "\"\n    {\n        uniform token info:id = \"UsdUVTexture\"\n"@ =~= ""@ + seq!['\n']
        + shader_line(name) + seq!['\n']
        + "    {"@ + seq!['\n'] + "        uniform token info:id = \"UsdUVTexture\""@ + seq!['\n']);
}

/// The line of a file, and that of its colour space.
proof fn file_is_lines(path: Seq<char>, color_space: Seq<char>)
    requires
        is_line(path),
        is_line(color_space),
    ensures
        is_quiet("        asset inputs:file = @"@ + asset_text(path) + "@"@),
        is_quiet("        token inputs:sourceColorSpace = \""@ + color_space + "\""@),
        "@\n        token inputs:sourceColorSpace = \""@ == "@"@ + seq!['\n']
            + "        token inputs:sourceColorSpace = \""@,
{
    assets_are_not_cut_short(path);
    reveal_strlit("        asset inputs:file = @");
    reveal_strlit("@");
    reveal_strlit("        token inputs:sourceColorSpace = \"");
    reveal_strlit("\"");
    reveal_strlit("@\n        token inputs:sourceColorSpace = \"");
    assert("@\n        token inputs:sourceColorSpace = \""@ =~= "@"@ + seq!['\n']
        + "        token inputs:sourceColorSpace = \""@);
}

/// The same text in other groups.
proof fn texts_regroup(
    top: Seq<char>,
    asset: Seq<char>,
    path: Seq<char>,
    at: Seq<char>,
    token: Seq<char>,
    space: Seq<char>,
    quote: Seq<char>,
    rest: Seq<char>,
)
    ensures
        ({
            let l = seq!['\n'];
            top + asset + path + (at + l + token) + space + (quote + l + rest) == top + ((asset
                + path
                + at) + l + (token + space + quote) + l) + rest
        }),
{
    let l = seq!['\n'];
    assert(top + asset + path + (at + l + token) + space + (quote + l + rest) =~= top + ((asset
        + path + at) + l + (token + space + quote) + l) + rest);
}

/// The same text in other groups.
proof fn last_texts_regroup(
    top: Seq<char>,
    file: Seq<char>,
    d: Seq<char>,
    e0: Seq<char>,
    e1: Seq<char>,
    e2: Seq<char>,
    f0: Seq<char>,
    f1: Seq<char>,
)
    ensures
        ({
            let l = seq!['\n'];
            top + file + (d + l + e0 + l + e1 + l + e2 + l + f0 + l + f1 + l) == top + (file + d
                + l) + (
            e0 + l + e1 + l + e2 + l) + (f0 + l + f1 + l)
        }),
{
    let l = seq!['\n'];
    assert(top + file + (d + l + e0 + l + e1 + l + e2 + l + f0 + l + f1 + l) =~= top + (file + d
        + l)
        + (e0 + l + e1 + l + e2 + l) + (f0 + l + f1 + l));
}

/// A shader that reads a texture is lines.
proof fn shader_is_lines(
    name: Seq<char>,
    path: Seq<char>,
    color_space: Seq<char>,
    normal_map: bool,
)
    requires
        is_line(name),
        is_line(path),
        is_line(color_space),
    ensures
        texture_shader(name, path, color_space, normal_map) == of_lines(
            shader_block(name, path, color_space, normal_map),
        ),
        are_lines(shader_block(name, path, color_space, normal_map)),
{
    reveal(shader_block);
    shader_lines_define(name, name);
    shader_head_is_lines(name);
    range_is_lines(normal_map);
    file_is_lines(path, color_space);
    place_line();
    shader_tail_is_lines();
    let file = "        asset inputs:file = @"@ + asset_text(path) + "@"@;
    let space = "        token inputs:sourceColorSpace = \""@ + color_space + "\""@;
    let a = seq![""@, shader_line(name), "    {"@];
    let b = seq!["        uniform token info:id = \"UsdUVTexture\""@];
    let c = range_lines(normal_map);
    let d = seq![file, space,
        "        float2 inputs:st.connect = </Material/stReader.outputs:result>"@];
    let e = seq!["        token inputs:wrapS = \"repeat\""@,
        "        token inputs:wrapT = \"repeat\""@, "        float outputs:r"@];
    let f = seq!["        float3 outputs:rgb"@, "    }"@];
    three_lines(a[0], a[1], a[2]);
    one_line(b[0]);
    three_lines(d[0], d[1], d[2]);
    three_lines(e[0], e[1], e[2]);
    two_lines(f[0], f[1]);
    assert(are_lines(a) && are_lines(b) && are_lines(c) && are_lines(d) && are_lines(e)
        && are_lines(
        f,
    ));
    six_lists(a, b, c, d, e, f, ""@, ""@);
    let l = seq!['\n'];
    let top = "\n    def Shader \""@ + name
        + "\"\n    {\n        uniform token info:id = \"UsdUVTexture\"\n"@;
    let quote = "\""@;
    let at = "@"@;
    let asset = "        asset inputs:file = @"@;
    let token = "        token inputs:sourceColorSpace = \""@;
    let tail = "\"\n        float2 inputs:st.connect = </Material/stReader.outputs:result>\n        token inputs:wrapS = \"repeat\"\n        token inputs:wrapT = \"repeat\"\n        float outputs:r\n        float3 outputs:rgb\n    }\n"@;
    texts_regroup(
        top + normal_map_rows(normal_map),
        asset,
        asset_text(path),
        at,
        token,
        color_space,
        quote,
        d[2] + l + e[0] + l + e[1] + l + e[2] + l + f[0] + l + f[1] + l,
    );
    assert(tail == quote + l + (d[2] + l + e[0] + l + e[1] + l + e[2] + l + f[0] + l + f[1] + l));
    assert(texture_shader(name, path, color_space, normal_map) == top + normal_map_rows(normal_map)
        + (file + l + space + l) + (d[2] + l + e[0] + l + e[1] + l + e[2] + l + f[0] + l + f[1]
        + l));
    last_texts_regroup(
        top + normal_map_rows(normal_map),
        file + l + space + l,
        d[2],
        e[0],
        e[1],
        e[2],
        f[0],
        f[1],
    );
    assert(top == a[0] + l + a[1] + l + a[2] + l + b[0] + l);
    assert(a[0] + l + a[1] + l + a[2] + l + b[0] + l =~= (a[0] + l + a[1] + l + a[2] + l) + (b[0]
        + l));
}

/// A shader that reads a texture defines itself alone, feeds nothing, and connects to the
/// reader of places.
proof fn shader_is_counted(
    name: Seq<char>,
    path: Seq<char>,
    color_space: Seq<char>,
    normal_map: bool,
    other: Seq<char>,
    line: Seq<char>,
)
    requires
        is_line(path),
        is_line(color_space),
        feeds(line),
    ensures
        ({
            let block = shader_block(name, path, color_space, normal_map);
            &&& times(block, shader_line(other)) == (if other == name {
                1nat
            } else {
                0
            })
            &&& times(block, line) == 0
            &&& block.len() == (if normal_map {
                14nat
            } else {
                12
            })
            &&& forall|i: int|
                0 <= i < block.len() && is_connection(#[trigger] block[i]) ==> connected_shader(
                    block[i],
                ) == "stReader"@
        }),
{
    reveal(shader_block);
    let block = shader_block(name, path, color_space, normal_map);
    shader_lines_define(name, other);
    shader_lines_define(other, name);
    shader_head_is_lines(name);
    range_is_lines(normal_map);
    file_is_lines(path, color_space);
    place_line();
    shader_tail_is_lines();
    let n = block.len() - 6;
    assert forall|i: int| 0 <= i < block.len() && i != 1 && i != n implies is_quiet(
        #[trigger] block[i],
    ) by {
        if 4 <= i < n - 2 {
            assert(block[i] == range_lines(normal_map)[i - 4]);
        } else {
            assert(i == 0 || i == 2 || i == 3 || i == n - 2 || i == n - 1 || i == n + 1 || i == n
                + 2
                || i == n + 3 || i == n + 4 || i == n + 5);
        }
    }
    assert(block[1] == shader_line(name));
    assert(block[n] == "        float2 inputs:st.connect = </Material/stReader.outputs:result>"@);
    if other == name {
        single_lines_are_counted_once(block, shader_line(other), 1);
    } else {
        missing_lines_are_not_counted(block, shader_line(other));
    }
    missing_lines_are_not_counted(block, line);
}

/// The lines of a shader show that it reads its texture, wherever they stand.
proof fn shader_is_read(
    before: Seq<Seq<char>>,
    name: Seq<char>,
    path: Seq<char>,
    color_space: Seq<char>,
    normal_map: bool,
    after: Seq<Seq<char>>,
)
    ensures
        is_read(
            before + shader_block(name, path, color_space, normal_map) + after,
            name,
            path,
            color_space,
            normal_map,
        ),
{
    reveal(shader_block);
    let block = shader_block(name, path, color_space, normal_map);
    let all = before + block + after;
    let k = before.len() as int;
    assert forall|i: int| 0 <= i < block.len() implies #[trigger] all[k + i] == block[i] by {}
    let n = block.len() - 8;
    assert(all[k + 1] == block[1] && all[k + 2] == block[2] && all[k + 3] == block[3]);
    assert(normal_map ==> all[k + 4] == block[4] && all[k + 5] == block[5]);
    assert(all[k + n] == block[n] && all[k + n + 1] == block[n + 1] && all[k + n + 2] == block[n
        + 2]
        && all[k + n + 3] == block[n + 3] && all[k + n + 4] == block[n + 4] && all[k + n + 5]
        == block[n + 5] && all[k + n + 6] == block[n + 6] && all[k + n + 7] == block[n + 7]);
    assert(reads_texture(all, k + 1, name, path, color_space, normal_map));
}

/// The lines above the inputs of the surface.
spec fn head_lines() -> Seq<Seq<char>> {
    seq!["#usda 1.0"@, "("@, "    defaultPrim = \"Material\""@]
        + seq!["    doc = \"Imported USDZ material network generated by forge-paint.\""@, ")"@, ""@]
        + seq!["def Material \"Material\""@, "{"@,
            "    token outputs:surface.connect = </Material/Surface.outputs:surface>"@]
        + seq![""@, shader_line("Surface"@), "    {"@]
        + seq!["        uniform token info:id = \"UsdPreviewSurface\""@]
}

/// The line that connects the surface.
proof fn output_line()
    ensures
        ({
            let line = "    token outputs:surface.connect = </Material/Surface.outputs:surface>"@;
            is_line(line) && is_connection(line) && !feeds(line) && !defines(line)
                && connected_shader(line) == "Surface"@
        }),
{
    reveal_strlit("    token outputs:surface.connect = </Material/Surface.outputs:surface>");
    reveal_strlit("    token outputs:surface.connect = ");
    reveal_strlit("outputs:surface>");
    reveal_strlit("</Material/");
    reveal_strlit("Surface");
    reveal_strlit(".");
    let front = "    token outputs:surface.connect = "@;
    let rest = "outputs:surface>"@;
    assert("    token outputs:surface.connect = </Material/Surface.outputs:surface>"@ =~= front
        + "</Material/"@ + "Surface"@ + "."@ + rest);
    connections_name_their_shader(front, "Surface"@, rest);
}

/// What is said above the inputs of the surface defines and connects nothing, but for two lines.
proof fn head_is_quiet()
    ensures
        is_quiet("#usda 1.0"@),
        is_quiet("("@),
        is_quiet("    defaultPrim = \"Material\""@),
        is_quiet("    doc = \"Imported USDZ material network generated by forge-paint.\""@),
        is_quiet(")"@),
        is_quiet(""@),
        is_quiet("def Material \"Material\""@),
        is_quiet("{"@),
        is_quiet("    {"@),
        is_quiet("        uniform token info:id = \"UsdPreviewSurface\""@),
        is_line("Surface"@),
        "Surface"@.len() == 7 && "Surface"@[0] == 'S',
{
    reveal_strlit("Surface");
    reveal_strlit("#usda 1.0");
    reveal_strlit("(");
    reveal_strlit("    defaultPrim = \"Material\"");
    reveal_strlit("    doc = \"Imported USDZ material network generated by forge-paint.\"");
    reveal_strlit(")");
    reveal_strlit("");
    reveal_strlit("def Material \"Material\"");
    reveal_strlit("{");
    reveal_strlit("    {");
    reveal_strlit("        uniform token info:id = \"UsdPreviewSurface\"");
}

/// The text above the inputs of the surface.
proof fn head_text()
    ensures
        "#usda 1.0\n(\n    defaultPrim = \"Material\"\n    doc = \"Imported USDZ material network generated by forge-paint.\"\n)\n\ndef Material \"Material\"\n{\n    token outputs:surface.connect = </Material/Surface.outputs:surface>\n\n    def Shader \"Surface\"\n    {\n        uniform token info:id = \"UsdPreviewSurface\"\n"@
            == "#usda 1.0"@ + seq!['\n'] + "("@ + seq!['\n'] + "    defaultPrim = \"Material\""@
            + seq!['\n'] + "    doc = \"Imported USDZ material network generated by forge-paint.\""@
            + seq!['\n'] + ")"@ + seq!['\n'] + ""@ + seq!['\n'] + "def Material \"Material\""@
            + seq!['\n'] + "{"@ + seq!['\n']
            + "    token outputs:surface.connect = </Material/Surface.outputs:surface>"@
            + seq!['\n'] + ""@ + seq!['\n'] + shader_line("Surface"@) + seq!['\n'] + "    {"@
            + seq!['\n'] + "        uniform token info:id = \"UsdPreviewSurface\""@ + seq!['\n'],
{
    reveal_strlit("#usda 1.0\n(\n    defaultPrim = \"Material\"\n    doc = \"Imported USDZ material network generated by forge-paint.\"\n)\n\ndef Material \"Material\"\n{\n    token outputs:surface.connect = </Material/Surface.outputs:surface>\n\n    def Shader \"Surface\"\n    {\n        uniform token info:id = \"UsdPreviewSurface\"\n");
    reveal_strlit("    def Shader \"");
    reveal_strlit("\"");
    reveal_strlit("Surface");
    reveal_strlit("#usda 1.0");
    reveal_strlit("(");
    reveal_strlit("    defaultPrim = \"Material\"");
    reveal_strlit("    doc = \"Imported USDZ material network generated by forge-paint.\"");
    reveal_strlit(")");
    reveal_strlit("");
    reveal_strlit("def Material \"Material\"");
    reveal_strlit("{");
    reveal_strlit("    token outputs:surface.connect = </Material/Surface.outputs:surface>");
    reveal_strlit("    def Shader \"Surface\"");
    reveal_strlit("    {");
    reveal_strlit("        uniform token info:id = \"UsdPreviewSurface\"");
    assert(shader_line("Surface"@) =~= "    def Shader \"Surface\""@);
    assert("#usda 1.0\n(\n    defaultPrim = \"Material\"\n    doc = \"Imported USDZ material network generated by forge-paint.\"\n)\n\ndef Material \"Material\"\n{\n    token outputs:surface.connect = </Material/Surface.outputs:surface>\n\n    def Shader \"Surface\"\n    {\n        uniform token info:id = \"UsdPreviewSurface\"\n"@
        =~= "#usda 1.0"@ + seq!['\n'] + "("@ + seq!['\n'] + "    defaultPrim = \"Material\""@
        + seq!['\n'] + "    doc = \"Imported USDZ material network generated by forge-paint.\""@
        + seq!['\n'] + ")"@ + seq!['\n'] + ""@ + seq!['\n'] + "def Material \"Material\""@
        + seq!['\n'] + "{"@ + seq!['\n']
        + "    token outputs:surface.connect = </Material/Surface.outputs:surface>"@ + seq!['\n']
        + ""@ + seq!['\n'] + shader_line("Surface"@) + seq!['\n'] + "    {"@ + seq!['\n']
        + "        uniform token info:id = \"UsdPreviewSurface\""@ + seq!['\n']);
}

/// What stands above the inputs of the surface is lines.
#[verifier::spinoff_prover]
#[verifier::rlimit(50)]
proof fn head_is_lines()
    ensures
        "#usda 1.0\n(\n    defaultPrim = \"Material\"\n    doc = \"Imported USDZ material network generated by forge-paint.\"\n)\n\ndef Material \"Material\"\n{\n    token outputs:surface.connect = </Material/Surface.outputs:surface>\n\n    def Shader \"Surface\"\n    {\n        uniform token info:id = \"UsdPreviewSurface\"\n"@
            == of_lines(head_lines()),
        are_lines(head_lines()),
        head_lines().len() == 13,
{
    head_text();
    head_is_quiet();
    output_line();
    shader_lines_define("Surface"@, "Surface"@);
    let l = seq!['\n'];
    let a = seq!["#usda 1.0"@, "("@, "    defaultPrim = \"Material\""@];
    let b = seq!["    doc = \"Imported USDZ material network generated by forge-paint.\""@, ")"@,
        ""@];
    let c = seq!["def Material \"Material\""@, "{"@,
        "    token outputs:surface.connect = </Material/Surface.outputs:surface>"@];
    let d = seq![""@, shader_line("Surface"@), "    {"@];
    let e = seq!["        uniform token info:id = \"UsdPreviewSurface\""@];
    three_lines(a[0], a[1], a[2]);
    three_lines(b[0], b[1], b[2]);
    three_lines(c[0], c[1], c[2]);
    three_lines(d[0], d[1], d[2]);
    one_line(e[0]);
    lines_follow(a, b);
    lines_follow(a + b, c);
    lines_follow(a + b + c, d);
    lines_follow(a + b + c + d, e);
    let x = a[0] + l + a[1] + l + a[2] + l;
    let y = x + b[0] + l + b[1] + l + b[2] + l;
    let z = y + c[0] + l + c[1] + l + c[2] + l;
    assert(y =~= x + (b[0] + l + b[1] + l + b[2] + l));
    assert(z =~= y + (c[0] + l + c[1] + l + c[2] + l));
    assert(z + d[0] + l + d[1] + l + d[2] + l =~= z + (d[0] + l + d[1] + l + d[2] + l));
    assert(z + d[0] + l + d[1] + l + d[2] + l + e[0] + l =~= z + d[0] + l + d[1] + l + d[2] + l + (
    e[0] + l));
}

/// What stands above the inputs of the surface defines the surface alone.
proof fn head_is_counted(name: Seq<char>, line: Seq<char>)
    requires
        feeds(line),
    ensures
        times(head_lines(), shader_line(name)) == (if name == "Surface"@ {
            1nat
        } else {
            0
        }),
        times(head_lines(), line) == 0,
        forall|i: int|
            0 <= i < 13 && is_connection(#[trigger] head_lines()[i]) ==> connected_shader(
                head_lines()[i],
            ) == "Surface"@,
{
    let block = head_lines();
    head_is_quiet();
    output_line();
    shader_lines_define("Surface"@, name);
    shader_lines_define(name, "Surface"@);
    assert forall|i: int| 0 <= i < 13 && i != 8
        && i != 10 implies is_quiet(#[trigger] block[i]) by {
        assert(i == 0 || i == 1 || i == 2 || i == 3 || i == 4 || i == 5 || i == 6 || i == 7 || i
            == 9
            || i == 11 || i == 12);
    }
    assert(block.len() == 13);
    assert(block[10] == shader_line("Surface"@));
    assert(block[8] == "    token outputs:surface.connect = </Material/Surface.outputs:surface>"@);
    if name == "Surface"@ {
        single_lines_are_counted_once(block, shader_line(name), 10);
    } else {
        missing_lines_are_not_counted(block, shader_line(name));
    }
    missing_lines_are_not_counted(block, line);
}

/// The lines below the inputs of the surface, up to the textures.
spec fn reader_lines(primvar: Seq<char>) -> Seq<Seq<char>> {
    seq!["        token outputs:surface"@, "    }"@, ""@] + seq![shader_line("stReader"@), "    {"@,
        "        uniform token info:id = \"UsdPrimvarReader_float2\""@] + seq![
        "        token inputs:varname = \""@ + primvar + "\""@,
        "        float2 outputs:result"@,
        "    }"@,
    ]
}

/// The lines below the inputs of the surface define the reader of places alone.
proof fn reader_is_lines(primvar: Seq<char>)
    requires
        is_line(primvar),
    ensures
        "        token outputs:surface\n    }\n\n    def Shader \"stReader\"\n    {\n        uniform token info:id = \"UsdPrimvarReader_float2\"\n        token inputs:varname = \""@
            + primvar + "\"\n        float2 outputs:result\n    }\n"@
            == of_lines(reader_lines(primvar)),
        are_lines(reader_lines(primvar)),
        reader_lines(primvar).len() == 9,
        forall|i: int|
            0 <= i < 9 && i != 3 ==> is_quiet(#[trigger] reader_lines(primvar)[i]),
        "        token outputs:surface"@.len() > 8,
        "stReader"@.len() > 0 && "stReader"@[0] == 's',
{
    reveal_strlit("        token outputs:surface\n    }\n\n    def Shader \"stReader\"\n    {\n        uniform token info:id = \"UsdPrimvarReader_float2\"\n        token inputs:varname = \"");
    reveal_strlit("\"\n        float2 outputs:result\n    }\n");
    reveal_strlit("        token outputs:surface");
    reveal_strlit("    }");
    reveal_strlit("");
    reveal_strlit("    def Shader \"");
    reveal_strlit("\"");
    reveal_strlit("stReader");
    reveal_strlit("    {");
    reveal_strlit("        uniform token info:id = \"UsdPrimvarReader_float2\"");
    reveal_strlit("        token inputs:varname = \"");
    reveal_strlit("        float2 outputs:result");
    let l = seq!['\n'];
    let a = seq!["        token outputs:surface"@, "    }"@, ""@];
    let b = seq![shader_line("stReader"@), "    {"@,
        "        uniform token info:id = \"UsdPrimvarReader_float2\""@];
    let c = seq![
        "        token inputs:varname = \""@ + primvar + "\""@,
        "        float2 outputs:result"@,
        "    }"@,
    ];
    shader_lines_define("stReader"@, "stReader"@);
    three_lines(a[0], a[1], a[2]);
    three_lines(b[0], b[1], b[2]);
    three_lines(c[0], c[1], c[2]);
    assert(are_lines(a) && are_lines(b) && are_lines(c));
    lines_follow(a, b);
    lines_follow(a + b, c);
    assert("        token outputs:surface\n    }\n\n    def Shader \"stReader\"\n    {\n        uniform token info:id = \"UsdPrimvarReader_float2\"\n        token inputs:varname = \""@
        + primvar + "\"\n        float2 outputs:result\n    }\n"@ =~= (a[0] + l + a[1] + l + a[2]
        + l) + (b[0] + l + b[1] + l + b[2] + l)
        + (c[0] + l + c[1] + l + c[2] + l));
    assert forall|i: int| 0 <= i < 9 && i != 3 implies is_quiet(
        #[trigger] reader_lines(primvar)[i],
    ) by {
        assert(i == 0 || i == 1 || i == 2 || i == 4 || i == 5 || i == 6 || i == 7 || i == 8);
    }
}

/// The lines below the inputs of the surface, counted.
proof fn reader_is_counted(primvar: Seq<char>, name: Seq<char>, line: Seq<char>)
    requires
        is_line(primvar),
        feeds(line),
    ensures
        times(reader_lines(primvar), shader_line(name)) == (if name == "stReader"@ {
            1nat
        } else {
            0
        }),
        times(reader_lines(primvar), line) == 0,
        forall|i: int| 0 <= i < 9 ==> !is_connection(#[trigger] reader_lines(primvar)[i]),
{
    let block = reader_lines(primvar);
    reader_is_lines(primvar);
    shader_lines_define("stReader"@, name);
    shader_lines_define(name, "stReader"@);
    assert(block[3] == shader_line("stReader"@));
    assert forall|i: int| 0 <= i < 9 implies !is_connection(#[trigger] block[i]) by {}
    if name == "stReader"@ {
        single_lines_are_counted_once(block, shader_line(name), 3);
    } else {
        missing_lines_are_not_counted(block, shader_line(name));
    }
    missing_lines_are_not_counted(block, line);
}

/// The line of an input: what connects it where there is a texture, else its value.
spec fn input_lines(path: Option<Seq<char>>, line: Seq<char>,
    value: Seq<Seq<char>>) -> Seq<Seq<char>> {
    if path is Some {
        seq![line]
    } else {
        value
    }
}

/// The values of the inputs that have one without a texture.
proof fn values_are_quiet()
    ensures
        is_quiet("        color3f inputs:diffuseColor = (0.8, 0.8, 0.8)"@),
        "        color3f inputs:diffuseColor = (0.8, 0.8, 0.8)\n"@
            == "        color3f inputs:diffuseColor = (0.8, 0.8, 0.8)"@ + seq!['\n'],
        "        color3f inputs:diffuseColor = (0.8, 0.8, 0.8)"@.len() > 8,
        is_quiet("        float inputs:metallic = 0.0"@),
        "        float inputs:metallic = 0.0\n"@ == "        float inputs:metallic = 0.0"@
            + seq!['\n'],
        "        float inputs:metallic = 0.0"@.len() > 8,
        is_quiet("        float inputs:roughness = 0.5"@),
        "        float inputs:roughness = 0.5\n"@ == "        float inputs:roughness = 0.5"@
            + seq!['\n'],
        "        float inputs:roughness = 0.5"@.len() > 8,
{
    reveal_strlit("        color3f inputs:diffuseColor = (0.8, 0.8, 0.8)");
    reveal_strlit("        color3f inputs:diffuseColor = (0.8, 0.8, 0.8)\n");
    reveal_strlit("        float inputs:metallic = 0.0");
    reveal_strlit("        float inputs:metallic = 0.0\n");
    reveal_strlit("        float inputs:roughness = 0.5");
    reveal_strlit("        float inputs:roughness = 0.5\n");
    assert("        color3f inputs:diffuseColor = (0.8, 0.8, 0.8)\n"@
        =~= "        color3f inputs:diffuseColor = (0.8, 0.8, 0.8)"@ + seq!['\n']);
    assert("        float inputs:metallic = 0.0\n"@ =~= "        float inputs:metallic = 0.0"@
        + seq!['\n']);
    assert("        float inputs:roughness = 0.5\n"@ =~= "        float inputs:roughness = 0.5"@
        + seq!['\n']);
}

/// The line of an input, counted.
proof fn input_is_counted(
    path: Option<Seq<char>>,
    own: Seq<char>,
    value: Seq<Seq<char>>,
    name: Seq<char>,
    line: Seq<char>,
)
    requires
        is_line(own),
        feeds(own),
        !defines(own),
        feeds(line),
        value.len() <= 1,
        forall|i: int| 0 <= i < value.len() ==> is_quiet(#[trigger] value[i]) && value[i].len() > 8,
    ensures
        ({
            let list = input_lines(path, own, value);
            &&& are_lines(list)
            &&& times(list, shader_line(name)) == 0
            &&& times(list, line) == (if path is Some && own == line {
                1nat
            } else {
                0
            })
            &&& list.len() == (if path is Some {
                1nat
            } else {
                value.len()
            })
            &&& forall|i: int| 0 <= i < list.len() ==> (#[trigger] list[i]).len() > 8
        }),
{
    let list = input_lines(path, own, value);
    shader_lines_define(name, name);
    missing_lines_are_not_counted(list, shader_line(name));
    if path is Some && own == line {
        single_lines_are_counted_once(list, line, 0);
    } else {
        missing_lines_are_not_counted(list, line);
    }
}

/// The lines of this input.
#[verifier::opaque]
spec fn base_color_lines(path: Option<Seq<char>>) -> Seq<Seq<char>> {
    input_lines(path, connection("color3f"@, "diffuseColor"@, "BaseColorTexture"@, "rgb"@),
        seq!["        color3f inputs:diffuseColor = (0.8, 0.8, 0.8)"@])
}

/// The lines of this input, counted.
proof fn base_color_is_counted(path: Option<Seq<char>>, name: Seq<char>, line: Seq<char>)
    requires
        feeds(line),
    ensures
        ({
            let own = connection("color3f"@, "diffuseColor"@, "BaseColorTexture"@, "rgb"@);
            let list = base_color_lines(path);
            &&& are_lines(list)
            &&& of_lines(list) == either(path is Some,
                "        color3f inputs:diffuseColor.connect = </Material/BaseColorTexture.outputs:rgb>\n"@,
                "        color3f inputs:diffuseColor = (0.8, 0.8, 0.8)\n"@)
            &&& times(list, shader_line(name)) == 0
            &&& times(list, line) == (if path is Some && own == line {
                1nat
            } else {
                0
            })
            &&& list.len() == 1
            &&& forall|i: int| 0 <= i < list.len() ==> (#[trigger] list[i]).len() > 8
            &&& forall|i: int|
                0 <= i < list.len() && is_connection(#[trigger] list[i]) ==> path is Some
                    && connected_shader(list[i]) == "BaseColorTexture"@
        }),
{
    reveal(base_color_lines);
    let own = connection("color3f"@, "diffuseColor"@, "BaseColorTexture"@, "rgb"@);
    base_color_line();
    values_are_quiet();
    input_is_counted(path, own, seq!["        color3f inputs:diffuseColor = (0.8, 0.8, 0.8)"@], name,
        line);
    one_line(own);
    one_line("        color3f inputs:diffuseColor = (0.8, 0.8, 0.8)"@);
}

/// The lines of this input.
#[verifier::opaque]
spec fn metallic_lines(path: Option<Seq<char>>) -> Seq<Seq<char>> {
    input_lines(path, connection("float"@, "metallic"@, "MetallicTexture"@, "r"@),
        seq!["        float inputs:metallic = 0.0"@])
}

/// The lines of this input, counted.
proof fn metallic_is_counted(path: Option<Seq<char>>, name: Seq<char>, line: Seq<char>)
    requires
        feeds(line),
    ensures
        ({
            let own = connection("float"@, "metallic"@, "MetallicTexture"@, "r"@);
            let list = metallic_lines(path);
            &&& are_lines(list)
            &&& of_lines(list) == either(path is Some,
                "        float inputs:metallic.connect = </Material/MetallicTexture.outputs:r>\n"@,
                "        float inputs:metallic = 0.0\n"@)
            &&& times(list, shader_line(name)) == 0
            &&& times(list, line) == (if path is Some && own == line {
                1nat
            } else {
                0
            })
            &&& list.len() == 1
            &&& forall|i: int| 0 <= i < list.len() ==> (#[trigger] list[i]).len() > 8
            &&& forall|i: int|
                0 <= i < list.len() && is_connection(#[trigger] list[i]) ==> path is Some
                    && connected_shader(list[i]) == "MetallicTexture"@
        }),
{
    reveal(metallic_lines);
    let own = connection("float"@, "metallic"@, "MetallicTexture"@, "r"@);
    metallic_line();
    values_are_quiet();
    input_is_counted(path, own, seq!["        float inputs:metallic = 0.0"@], name, line);
    one_line(own);
    one_line("        float inputs:metallic = 0.0"@);
}

/// The lines of this input.
#[verifier::opaque]
spec fn roughness_lines(path: Option<Seq<char>>) -> Seq<Seq<char>> {
    input_lines(path, connection("float"@, "roughness"@, "RoughnessTexture"@, "r"@),
        seq!["        float inputs:roughness = 0.5"@])
}

/// The lines of this input, counted.
proof fn roughness_is_counted(path: Option<Seq<char>>, name: Seq<char>, line: Seq<char>)
    requires
        feeds(line),
    ensures
        ({
            let own = connection("float"@, "roughness"@, "RoughnessTexture"@, "r"@);
            let list = roughness_lines(path);
            &&& are_lines(list)
            &&& of_lines(list) == either(path is Some,
                "        float inputs:roughness.connect = </Material/RoughnessTexture.outputs:r>\n"@,
                "        float inputs:roughness = 0.5\n"@)
            &&& times(list, shader_line(name)) == 0
            &&& times(list, line) == (if path is Some && own == line {
                1nat
            } else {
                0
            })
            &&& list.len() == 1
            &&& forall|i: int| 0 <= i < list.len() ==> (#[trigger] list[i]).len() > 8
            &&& forall|i: int|
                0 <= i < list.len() && is_connection(#[trigger] list[i]) ==> path is Some
                    && connected_shader(list[i]) == "RoughnessTexture"@
        }),
{
    reveal(roughness_lines);
    let own = connection("float"@, "roughness"@, "RoughnessTexture"@, "r"@);
    roughness_line();
    values_are_quiet();
    input_is_counted(path, own, seq!["        float inputs:roughness = 0.5"@], name, line);
    one_line(own);
    one_line("        float inputs:roughness = 0.5"@);
}

/// The lines of this input.
#[verifier::opaque]
spec fn normal_lines(path: Option<Seq<char>>) -> Seq<Seq<char>> {
    input_lines(path, connection("normal3f"@, "normal"@, "NormalTexture"@, "rgb"@),
        Seq::<Seq<char>>::empty())
}

/// The lines of this input, counted.
proof fn normal_is_counted(path: Option<Seq<char>>, name: Seq<char>, line: Seq<char>)
    requires
        feeds(line),
    ensures
        ({
            let own = connection("normal3f"@, "normal"@, "NormalTexture"@, "rgb"@);
            let list = normal_lines(path);
            &&& are_lines(list)
            &&& of_lines(list) == either(path is Some,
                "        normal3f inputs:normal.connect = </Material/NormalTexture.outputs:rgb>\n"@,
                ""@)
            &&& times(list, shader_line(name)) == 0
            &&& times(list, line) == (if path is Some && own == line {
                1nat
            } else {
                0
            })
            &&& list.len() == one_if(path)
            &&& forall|i: int| 0 <= i < list.len() ==> (#[trigger] list[i]).len() > 8
            &&& forall|i: int|
                0 <= i < list.len() && is_connection(#[trigger] list[i]) ==> path is Some
                    && connected_shader(list[i]) == "NormalTexture"@
        }),
{
    reveal(normal_lines);
    let own = connection("normal3f"@, "normal"@, "NormalTexture"@, "rgb"@);
    normal_line();
    values_are_quiet();
    input_is_counted(path, own, Seq::<Seq<char>>::empty(), name, line);
    one_line(own);
    reveal_strlit("");
    assert(""@ =~= of_lines(Seq::<Seq<char>>::empty()));
}

/// The lines of this input.
#[verifier::opaque]
spec fn emission_lines(path: Option<Seq<char>>) -> Seq<Seq<char>> {
    input_lines(path, connection("color3f"@, "emissiveColor"@, "EmissionTexture"@, "rgb"@),
        Seq::<Seq<char>>::empty())
}

/// The lines of this input, counted.
proof fn emission_is_counted(path: Option<Seq<char>>, name: Seq<char>, line: Seq<char>)
    requires
        feeds(line),
    ensures
        ({
            let own = connection("color3f"@, "emissiveColor"@, "EmissionTexture"@, "rgb"@);
            let list = emission_lines(path);
            &&& are_lines(list)
            &&& of_lines(list) == either(path is Some,
                "        color3f inputs:emissiveColor.connect = </Material/EmissionTexture.outputs:rgb>\n"@,
                ""@)
            &&& times(list, shader_line(name)) == 0
            &&& times(list, line) == (if path is Some && own == line {
                1nat
            } else {
                0
            })
            &&& list.len() == one_if(path)
            &&& forall|i: int| 0 <= i < list.len() ==> (#[trigger] list[i]).len() > 8
            &&& forall|i: int|
                0 <= i < list.len() && is_connection(#[trigger] list[i]) ==> path is Some
                    && connected_shader(list[i]) == "EmissionTexture"@
        }),
{
    reveal(emission_lines);
    let own = connection("color3f"@, "emissiveColor"@, "EmissionTexture"@, "rgb"@);
    emission_line();
    values_are_quiet();
    input_is_counted(path, own, Seq::<Seq<char>>::empty(), name, line);
    one_line(own);
    reveal_strlit("");
    assert(""@ =~= of_lines(Seq::<Seq<char>>::empty()));
}

/// The lines of this input.
#[verifier::opaque]
spec fn occlusion_lines(path: Option<Seq<char>>) -> Seq<Seq<char>> {
    input_lines(path, connection("float"@, "occlusion"@, "OcclusionTexture"@, "r"@),
        Seq::<Seq<char>>::empty())
}

/// The lines of this input, counted.
proof fn occlusion_is_counted(path: Option<Seq<char>>, name: Seq<char>, line: Seq<char>)
    requires
        feeds(line),
    ensures
        ({
            let own = connection("float"@, "occlusion"@, "OcclusionTexture"@, "r"@);
            let list = occlusion_lines(path);
            &&& are_lines(list)
            &&& of_lines(list) == either(path is Some,
                "        float inputs:occlusion.connect = </Material/OcclusionTexture.outputs:r>\n"@,
                ""@)
            &&& times(list, shader_line(name)) == 0
            &&& times(list, line) == (if path is Some && own == line {
                1nat
            } else {
                0
            })
            &&& list.len() == one_if(path)
            &&& forall|i: int| 0 <= i < list.len() ==> (#[trigger] list[i]).len() > 8
            &&& forall|i: int|
                0 <= i < list.len() && is_connection(#[trigger] list[i]) ==> path is Some
                    && connected_shader(list[i]) == "OcclusionTexture"@
        }),
{
    reveal(occlusion_lines);
    let own = connection("float"@, "occlusion"@, "OcclusionTexture"@, "r"@);
    occlusion_line();
    values_are_quiet();
    input_is_counted(path, own, Seq::<Seq<char>>::empty(), name, line);
    one_line(own);
    reveal_strlit("");
    assert(""@ =~= of_lines(Seq::<Seq<char>>::empty()));
}

/// The lines of the inputs of the surface.
#[verifier::opaque]
spec fn surface_lines(t: TexturesModel) -> Seq<Seq<char>> {
    base_color_lines(t.base_color)
        + metallic_lines(t.metallic)
        + roughness_lines(t.roughness)
        + normal_lines(t.normal)
        + emission_lines(t.emission)
        + occlusion_lines(t.occlusion)
}

/// One if something holds.
spec fn one_where(holds: bool) -> nat {
    if holds {
        1
    } else {
        0
    }
}

/// How many inputs are connected by a line.
spec fn inputs_on(t: TexturesModel, line: Seq<char>) -> nat {
    one_where(t.base_color is Some && connection("color3f"@, "diffuseColor"@, "BaseColorTexture"@,
        "rgb"@) == line)
        + one_where(t.metallic is Some && connection("float"@, "metallic"@, "MetallicTexture"@,
            "r"@) == line)
        + one_where(t.roughness is Some && connection("float"@, "roughness"@, "RoughnessTexture"@,
            "r"@) == line)
        + one_where(t.normal is Some && connection("normal3f"@, "normal"@, "NormalTexture"@, "rgb"@)
            == line)
        + one_where(t.emission is Some && connection("color3f"@, "emissiveColor"@,
            "EmissionTexture"@, "rgb"@) == line)
        + one_where(t.occlusion is Some && connection("float"@, "occlusion"@, "OcclusionTexture"@,
            "r"@) == line)
}

/// How many textures are read by a shader of a name.
spec fn shaders_named(t: TexturesModel, name: Seq<char>) -> nat {
    one_where(t.base_color is Some && name == "BaseColorTexture"@)
        + one_where(t.metallic is Some && name == "MetallicTexture"@)
        + one_where(t.roughness is Some && name == "RoughnessTexture"@)
        + one_where(t.normal is Some && name == "NormalTexture"@)
        + one_where(t.emission is Some && name == "EmissionTexture"@)
        + one_where(t.occlusion is Some && name == "OcclusionTexture"@)
}

/// The inputs of the surface, counted.
#[verifier::spinoff_prover]
#[verifier::rlimit(40)]
proof fn surface_is_counted(t: TexturesModel, name: Seq<char>, line: Seq<char>)
    requires
        feeds(line),
    ensures
        are_lines(surface_lines(t)),
        of_lines(surface_lines(t)) == surface_inputs(t),
        surface_lines(t).len() == surface_end(t) - 14,
        times(surface_lines(t), shader_line(name)) == 0,
        times(surface_lines(t), line) == inputs_on(t, line),
{
    reveal(surface_lines);
    base_color_is_counted(t.base_color, name, line);
    metallic_is_counted(t.metallic, name, line);
    roughness_is_counted(t.roughness, name, line);
    normal_is_counted(t.normal, name, line);
    emission_is_counted(t.emission, name, line);
    occlusion_is_counted(t.occlusion, name, line);
    let s0 = base_color_lines(t.base_color);
    let s1 = metallic_lines(t.metallic);
    let s2 = roughness_lines(t.roughness);
    let s3 = normal_lines(t.normal);
    let s4 = emission_lines(t.emission);
    let s5 = occlusion_lines(t.occlusion);
    six_lists(s0, s1, s2, s3, s4, s5, line, shader_line(name));
}

/// Where the inputs of the surface are connected to.
#[verifier::spinoff_prover]
#[verifier::rlimit(40)]
proof fn surface_connects(t: TexturesModel, i: int)
    requires
        0 <= i < surface_lines(t).len(),
    ensures
        surface_lines(t)[i].len() > 8,
        is_connection(surface_lines(t)[i]) ==> {
            let to = connected_shader(surface_lines(t)[i]);
            ||| to == "BaseColorTexture"@ && t.base_color is Some
            ||| to == "MetallicTexture"@ && t.metallic is Some
            ||| to == "RoughnessTexture"@ && t.roughness is Some
            ||| to == "NormalTexture"@ && t.normal is Some
            ||| to == "EmissionTexture"@ && t.emission is Some
            ||| to == "OcclusionTexture"@ && t.occlusion is Some
        },
{
    reveal(surface_lines);
    let name = Seq::<char>::empty();
    let line = connection("float"@, "metallic"@, "MetallicTexture"@, "r"@);
    metallic_line();
    base_color_is_counted(t.base_color, name, line);
    metallic_is_counted(t.metallic, name, line);
    roughness_is_counted(t.roughness, name, line);
    normal_is_counted(t.normal, name, line);
    emission_is_counted(t.emission, name, line);
    occlusion_is_counted(t.occlusion, name, line);
    let s0 = base_color_lines(t.base_color);
    let s1 = metallic_lines(t.metallic);
    let s2 = roughness_lines(t.roughness);
    let s3 = normal_lines(t.normal);
    let s4 = emission_lines(t.emission);
    let s5 = occlusion_lines(t.occlusion);
    one_of_six(s0, s1, s2, s3, s4, s5, i);
}

/// The lines of a shader, if there is a texture.
#[verifier::opaque]
spec fn optional_block(
    name: Seq<char>,
    path: Option<Seq<char>>,
    color_space: Seq<char>,
    normal_map: bool,
) -> Seq<Seq<char>> {
    match path {
        Some(p) => shader_block(name, p, color_space, normal_map),
        None => Seq::empty(),
    }
}

/// The lines of a shader, if there is a texture, counted.
proof fn optional_is_counted(
    name: Seq<char>,
    path: Option<Seq<char>>,
    color_space: Seq<char>,
    normal_map: bool,
    other: Seq<char>,
    line: Seq<char>,
)
    requires
        is_line(name),
        path matches Some(p) ==> is_line(p),
        is_line(color_space),
        feeds(line),
    ensures
        ({
            let list = optional_block(name, path, color_space, normal_map);
            &&& are_lines(list)
            &&& of_lines(list) == optional_shader(name, path, color_space, normal_map)
            &&& times(list, shader_line(other)) == (if path is Some && other == name {
                1nat
            } else {
                0
            })
            &&& times(list, line) == 0
            &&& list.len() == (if path is None {
                0nat
            } else if normal_map {
                14
            } else {
                12
            })
            &&& forall|i: int|
                0 <= i < list.len() && is_connection(#[trigger] list[i]) ==> connected_shader(
                    list[i],
                ) == "stReader"@
        }),
{
    reveal(optional_block);
    match path {
        Some(p) => {
            shader_is_lines(name, p, color_space, normal_map);
            shader_is_counted(name, p, color_space, normal_map, other, line);
        },
        None => {},
    }
}

/// The lines of the shaders.
#[verifier::opaque]
spec fn texture_lines(t: TexturesModel) -> Seq<Seq<char>> {
    optional_block("BaseColorTexture"@, t.base_color, "sRGB"@, false)
        + optional_block("MetallicTexture"@, t.metallic, "raw"@, false)
        + optional_block("RoughnessTexture"@, t.roughness, "raw"@, false)
        + optional_block("NormalTexture"@, t.normal, "raw"@, true)
        + optional_block("EmissionTexture"@, t.emission, "sRGB"@, false)
        + optional_block("OcclusionTexture"@, t.occlusion, "raw"@, false)
}

/// The names of the colour spaces.
proof fn color_spaces_are_lines()
    ensures
        is_line("sRGB"@),
        is_line("raw"@),
{
    reveal_strlit("sRGB");
    reveal_strlit("raw");
}

/// The shaders, counted.
#[verifier::spinoff_prover]
#[verifier::rlimit(40)]
proof fn textures_are_counted(t: TexturesModel, name: Seq<char>, line: Seq<char>)
    requires
        is_plain(t),
        feeds(line),
    ensures
        are_lines(texture_lines(t)),
        of_lines(texture_lines(t)) == texture_shaders(t),
        times(texture_lines(t), shader_line(name)) == shaders_named(t, name),
        times(texture_lines(t), line) == 0,
        texture_lines(t).len() == 12 * one_if(t.base_color) + 12 * one_if(t.metallic)
            + 12 * one_if(t.roughness) + 14 * one_if(t.normal) + 12 * one_if(t.emission)
            + 12 * one_if(t.occlusion),
{
    reveal(texture_lines);
    color_spaces_are_lines();
    base_color_line();
    optional_is_counted("BaseColorTexture"@, t.base_color, "sRGB"@, false, name, line);
    let s0 = optional_block("BaseColorTexture"@, t.base_color, "sRGB"@, false);
    metallic_line();
    optional_is_counted("MetallicTexture"@, t.metallic, "raw"@, false, name, line);
    let s1 = optional_block("MetallicTexture"@, t.metallic, "raw"@, false);
    roughness_line();
    optional_is_counted("RoughnessTexture"@, t.roughness, "raw"@, false, name, line);
    let s2 = optional_block("RoughnessTexture"@, t.roughness, "raw"@, false);
    normal_line();
    optional_is_counted("NormalTexture"@, t.normal, "raw"@, true, name, line);
    let s3 = optional_block("NormalTexture"@, t.normal, "raw"@, true);
    emission_line();
    optional_is_counted("EmissionTexture"@, t.emission, "sRGB"@, false, name, line);
    let s4 = optional_block("EmissionTexture"@, t.emission, "sRGB"@, false);
    occlusion_line();
    optional_is_counted("OcclusionTexture"@, t.occlusion, "raw"@, false, name, line);
    let s5 = optional_block("OcclusionTexture"@, t.occlusion, "raw"@, false);
    six_lists(s0, s1, s2, s3, s4, s5, line, shader_line(name));
}

/// The shaders are connected to the reader of places.
#[verifier::spinoff_prover]
#[verifier::rlimit(40)]
proof fn textures_connect(t: TexturesModel, i: int)
    requires
        is_plain(t),
        0 <= i < texture_lines(t).len(),
    ensures
        is_connection(texture_lines(t)[i]) ==> connected_shader(texture_lines(t)[i]) == "stReader"@,
{
    reveal(texture_lines);
    let name = Seq::<char>::empty();
    let line = connection("float"@, "metallic"@, "MetallicTexture"@, "r"@);
    metallic_line();
    color_spaces_are_lines();
    base_color_line();
    optional_is_counted("BaseColorTexture"@, t.base_color, "sRGB"@, false, name, line);
    let s0 = optional_block("BaseColorTexture"@, t.base_color, "sRGB"@, false);
    metallic_line();
    optional_is_counted("MetallicTexture"@, t.metallic, "raw"@, false, name, line);
    let s1 = optional_block("MetallicTexture"@, t.metallic, "raw"@, false);
    roughness_line();
    optional_is_counted("RoughnessTexture"@, t.roughness, "raw"@, false, name, line);
    let s2 = optional_block("RoughnessTexture"@, t.roughness, "raw"@, false);
    normal_line();
    optional_is_counted("NormalTexture"@, t.normal, "raw"@, true, name, line);
    let s3 = optional_block("NormalTexture"@, t.normal, "raw"@, true);
    emission_line();
    optional_is_counted("EmissionTexture"@, t.emission, "sRGB"@, false, name, line);
    let s4 = optional_block("EmissionTexture"@, t.emission, "sRGB"@, false);
    occlusion_line();
    optional_is_counted("OcclusionTexture"@, t.occlusion, "raw"@, false, name, line);
    let s5 = optional_block("OcclusionTexture"@, t.occlusion, "raw"@, false);
    one_of_six(s0, s1, s2, s3, s4, s5, i);
}

/// The lines of a document.
spec fn material_lines(t: TexturesModel) -> Seq<Seq<char>> {
    head_lines() + surface_lines(t) + reader_lines(t.uv_primvar) + texture_lines(t) + seq!["}"@]
        + Seq::empty()
}

/// What closes the document.
proof fn close_is_quiet()
    ensures
        is_quiet("}"@),
        "}\n"@ == "}"@ + seq!['\n'],
{
    reveal_strlit("}");
    reveal_strlit("}\n");
    assert("}\n"@ =~= "}"@ + seq!['\n']);
}

/// A document is lines.
#[verifier::spinoff_prover]
#[verifier::rlimit(40)]
proof fn material_is_lines(t: TexturesModel)
    requires
        is_plain(t),
    ensures
        are_lines(material_lines(t)),
        of_lines(material_lines(t)) == material_document(t),
        material_lines(t).len() == surface_end(t) + 9 + texture_lines(t).len(),
{
    let name = Seq::<char>::empty();
    let line = connection("float"@, "metallic"@, "MetallicTexture"@, "r"@);
    metallic_line();
    head_is_lines();
    surface_is_counted(t, name, line);
    reader_is_lines(t.uv_primvar);
    textures_are_counted(t, name, line);
    close_is_quiet();
    one_line("}"@);
    let none = Seq::<Seq<char>>::empty();
    assert(are_lines(none));
    six_lists(
        head_lines(),
        surface_lines(t),
        reader_lines(t.uv_primvar),
        texture_lines(t),
        seq!["}"@],
        none,
        name,
        line,
    );
    document_regroups(
        of_lines(head_lines()),
        of_lines(surface_lines(t)),
        "        token outputs:surface\n    }\n\n    def Shader \"stReader\"\n    {\n        uniform token info:id = \"UsdPrimvarReader_float2\"\n        token inputs:varname = \""@,
        t.uv_primvar,
        "\"\n        float2 outputs:result\n    }\n"@,
        texture_shaders(t),
        "}\n"@,
    );
}

/// The same text in other groups.
proof fn document_regroups(
    a: Seq<char>,
    b: Seq<char>,
    c: Seq<char>,
    d: Seq<char>,
    e: Seq<char>,
    f: Seq<char>,
    g: Seq<char>,
)
    ensures
        a + b + (c + d + e) + f + g + Seq::<char>::empty() == a + b + c + d + e + f + g,
{
    assert(a + b + (c + d + e) + f + g + Seq::<char>::empty() =~= a + b + c + d + e + f + g);
}

/// A document, counted.
#[verifier::spinoff_prover]
#[verifier::rlimit(40)]
proof fn material_is_counted(t: TexturesModel, name: Seq<char>, line: Seq<char>)
    requires
        is_plain(t),
        feeds(line),
    ensures
        are_lines(material_lines(t)),
        of_lines(material_lines(t)) == material_document(t),
        times(material_lines(t), shader_line(name)) == (if name == "Surface"@ {
            1nat
        } else {
            0
        }) + (if name == "stReader"@ {
            1nat
        } else {
            0
        }) + shaders_named(t, name),
        times(material_lines(t), line) == inputs_on(t, line),
        material_lines(t).len() == surface_end(t) + 9 + texture_lines(t).len(),
{
    head_is_lines();
    head_is_counted(name, line);
    surface_is_counted(t, name, line);
    reader_is_lines(t.uv_primvar);
    reader_is_counted(t.uv_primvar, name, line);
    textures_are_counted(t, name, line);
    close_is_quiet();
    quiet_lists(seq!["}"@], name, line);
    one_line("}"@);
    let none = Seq::<Seq<char>>::empty();
    assert(are_lines(none));
    six_lists(
        head_lines(),
        surface_lines(t),
        reader_lines(t.uv_primvar),
        texture_lines(t),
        seq!["}"@],
        none,
        shader_line(name),
        line,
    );
    material_is_lines(t);
}

/// The lines of a document, as they are read.
spec fn read_lines(t: TexturesModel) -> Seq<Seq<char>> {
    split(material_document(t), '\n')
}

/// A document reads back as its lines.
proof fn material_reads_back(t: TexturesModel, name: Seq<char>, line: Seq<char>)
    requires
        is_plain(t),
        feeds(line),
    ensures
        read_lines(t) == material_lines(t).push(Seq::<char>::empty()),
        times(read_lines(t), shader_line(name)) == times(material_lines(t), shader_line(name)),
        times(read_lines(t), line) == times(material_lines(t), line),
{
    material_is_counted(t, name, line);
    lines_read_back(material_lines(t));
    shader_lines_define(name, name);
    assert(read_lines(t).drop_last() =~= material_lines(t));
}

/// An input of the surface stands between its braces.
proof fn inputs_stand_in_the_surface(t: TexturesModel, line: Seq<char>)
    requires
        is_plain(t),
        feeds(line),
        times(surface_lines(t), line) > 0,
    ensures
        stands_between(read_lines(t), 12, surface_end(t), line),
{
    let name = Seq::<char>::empty();
    material_reads_back(t, name, line);
    head_is_lines();
    surface_is_counted(t, name, line);
    let i = counted_lines_stand(surface_lines(t), line);
    assert(read_lines(t)[13 + i] == line);
}

/// The names of the shaders differ.
proof fn shader_names_differ()
    ensures
        "BaseColorTexture"@ != "MetallicTexture"@,
        "BaseColorTexture"@ != "RoughnessTexture"@,
        "BaseColorTexture"@ != "NormalTexture"@,
        "BaseColorTexture"@ != "EmissionTexture"@,
        "BaseColorTexture"@ != "OcclusionTexture"@,
        "BaseColorTexture"@ != "Surface"@,
        "BaseColorTexture"@ != "stReader"@,
        "MetallicTexture"@ != "RoughnessTexture"@,
        "MetallicTexture"@ != "NormalTexture"@,
        "MetallicTexture"@ != "EmissionTexture"@,
        "MetallicTexture"@ != "OcclusionTexture"@,
        "MetallicTexture"@ != "Surface"@,
        "MetallicTexture"@ != "stReader"@,
        "RoughnessTexture"@ != "NormalTexture"@,
        "RoughnessTexture"@ != "EmissionTexture"@,
        "RoughnessTexture"@ != "OcclusionTexture"@,
        "RoughnessTexture"@ != "Surface"@,
        "RoughnessTexture"@ != "stReader"@,
        "NormalTexture"@ != "EmissionTexture"@,
        "NormalTexture"@ != "OcclusionTexture"@,
        "NormalTexture"@ != "Surface"@,
        "NormalTexture"@ != "stReader"@,
        "EmissionTexture"@ != "OcclusionTexture"@,
        "EmissionTexture"@ != "Surface"@,
        "EmissionTexture"@ != "stReader"@,
        "OcclusionTexture"@ != "Surface"@,
        "OcclusionTexture"@ != "stReader"@,
        "Surface"@ != "stReader"@,
{
    head_is_quiet();
    reveal_strlit("stReader");
    base_color_line();
    metallic_line();
    roughness_line();
    normal_line();
    emission_line();
    occlusion_line();
    assert("stReader"@[0] == 's');
}

/// Lists one after the other, seen from each of six of them.
proof fn parts_follow(
    top: Seq<Seq<char>>,
    a: Seq<Seq<char>>,
    b: Seq<Seq<char>>,
    c: Seq<Seq<char>>,
    d: Seq<Seq<char>>,
    e: Seq<Seq<char>>,
    f: Seq<Seq<char>>,
    close: Seq<Seq<char>>,
)
    ensures
        ({
            let none = Seq::<Seq<char>>::empty();
            let last = Seq::<char>::empty();
            let all = (top + (a + b + c + d + e + f) + close + none).push(last);
            &&& all == top + a + (b + c + d + e + f + close + none + seq![last])
            &&& all == top + a + b + (c + d + e + f + close + none + seq![last])
            &&& all == top + a + b + c + (d + e + f + close + none + seq![last])
            &&& all == top + a + b + c + d + (e + f + close + none + seq![last])
            &&& all == top + a + b + c + d + e + (f + close + none + seq![last])
            &&& all == top + a + b + c + d + e + f + (close + none + seq![last])
        }),
{
    let none = Seq::<Seq<char>>::empty();
    let last = Seq::<char>::empty();
    let all = (top + (a + b + c + d + e + f) + close + none).push(last);
    assert(all =~= top + a + (b + c + d + e + f + close + none + seq![last]));
    assert(all =~= top + a + b + (c + d + e + f + close + none + seq![last]));
    assert(all =~= top + a + b + c + (d + e + f + close + none + seq![last]));
    assert(all =~= top + a + b + c + d + (e + f + close + none + seq![last]));
    assert(all =~= top + a + b + c + d + e + (f + close + none + seq![last]));
    assert(all =~= top + a + b + c + d + e + f + (close + none + seq![last]));
}

/// This input is fed by its texture.
#[verifier::spinoff_prover]
#[verifier::rlimit(40)]
proof fn base_color_is_fed(t: TexturesModel)
    requires
        is_plain(t),
    ensures
        is_fed(read_lines(t), surface_end(t), "color3f"@, "diffuseColor"@, "BaseColorTexture"@,
            "rgb"@, t.base_color, "sRGB"@, false),
{
    let name = "BaseColorTexture"@;
    let line = connection("color3f"@, "diffuseColor"@, "BaseColorTexture"@, "rgb"@);
    base_color_line();
    metallic_line();
    roughness_line();
    normal_line();
    emission_line();
    occlusion_line();
    shader_names_differ();
    material_is_counted(t, name, line);
    material_reads_back(t, name, line);
    surface_is_counted(t, name, line);
    match t.base_color {
        Some(p) => {
            inputs_stand_in_the_surface(t, line);
            base_color_is_read(t, p);
        },
        None => {},
    }
}

/// The texture of this input is read.
#[verifier::spinoff_prover]
#[verifier::rlimit(40)]
proof fn base_color_is_read(t: TexturesModel, p: Seq<char>)
    requires
        is_plain(t),
        t.base_color == Some(p),
    ensures
        is_read(read_lines(t), "BaseColorTexture"@, p, "sRGB"@, false),
{
    let name = "BaseColorTexture"@;
    metallic_line();
    material_reads_back(t, name, connection("float"@, "metallic"@, "MetallicTexture"@, "r"@));
    let block = shader_block(name, p, "sRGB"@, false);
    assert(optional_block(name, t.base_color, "sRGB"@, false) == block) by {
        reveal(optional_block);
    }
    reveal(texture_lines);
    let s1 = optional_block("MetallicTexture"@, t.metallic, "raw"@, false);
    let s2 = optional_block("RoughnessTexture"@, t.roughness, "raw"@, false);
    let s3 = optional_block("NormalTexture"@, t.normal, "raw"@, true);
    let s4 = optional_block("EmissionTexture"@, t.emission, "sRGB"@, false);
    let s5 = optional_block("OcclusionTexture"@, t.occlusion, "raw"@, false);
    let top = head_lines() + surface_lines(t) + reader_lines(t.uv_primvar);
    let before = top;
    let after = s1 + s2 + s3 + s4 + s5 + seq!["}"@] + Seq::<Seq<char>>::empty()
        + seq![Seq::<char>::empty()];
    parts_follow(top, block, s1, s2, s3, s4, s5, seq!["}"@]);
    assert(read_lines(t) == before + block + after);
    shader_is_read(before, name, p, "sRGB"@, false, after);
}

/// This input is fed by its texture.
#[verifier::spinoff_prover]
#[verifier::rlimit(40)]
proof fn metallic_is_fed(t: TexturesModel)
    requires
        is_plain(t),
    ensures
        is_fed(read_lines(t), surface_end(t), "float"@, "metallic"@, "MetallicTexture"@, "r"@,
            t.metallic, "raw"@, false),
{
    let name = "MetallicTexture"@;
    let line = connection("float"@, "metallic"@, "MetallicTexture"@, "r"@);
    base_color_line();
    metallic_line();
    roughness_line();
    normal_line();
    emission_line();
    occlusion_line();
    shader_names_differ();
    material_is_counted(t, name, line);
    material_reads_back(t, name, line);
    surface_is_counted(t, name, line);
    match t.metallic {
        Some(p) => {
            inputs_stand_in_the_surface(t, line);
            metallic_is_read(t, p);
        },
        None => {},
    }
}

/// The texture of this input is read.
#[verifier::spinoff_prover]
#[verifier::rlimit(40)]
proof fn metallic_is_read(t: TexturesModel, p: Seq<char>)
    requires
        is_plain(t),
        t.metallic == Some(p),
    ensures
        is_read(read_lines(t), "MetallicTexture"@, p, "raw"@, false),
{
    let name = "MetallicTexture"@;
    metallic_line();
    material_reads_back(t, name, connection("float"@, "metallic"@, "MetallicTexture"@, "r"@));
    let block = shader_block(name, p, "raw"@, false);
    assert(optional_block(name, t.metallic, "raw"@, false) == block) by {
        reveal(optional_block);
    }
    reveal(texture_lines);
    let s0 = optional_block("BaseColorTexture"@, t.base_color, "sRGB"@, false);
    let s2 = optional_block("RoughnessTexture"@, t.roughness, "raw"@, false);
    let s3 = optional_block("NormalTexture"@, t.normal, "raw"@, true);
    let s4 = optional_block("EmissionTexture"@, t.emission, "sRGB"@, false);
    let s5 = optional_block("OcclusionTexture"@, t.occlusion, "raw"@, false);
    let top = head_lines() + surface_lines(t) + reader_lines(t.uv_primvar);
    let before = top + s0;
    let after = s2 + s3 + s4 + s5 + seq!["}"@] + Seq::<Seq<char>>::empty()
        + seq![Seq::<char>::empty()];
    parts_follow(top, s0, block, s2, s3, s4, s5, seq!["}"@]);
    assert(read_lines(t) == before + block + after);
    shader_is_read(before, name, p, "raw"@, false, after);
}

/// This input is fed by its texture.
#[verifier::spinoff_prover]
#[verifier::rlimit(40)]
proof fn roughness_is_fed(t: TexturesModel)
    requires
        is_plain(t),
    ensures
        is_fed(read_lines(t), surface_end(t), "float"@, "roughness"@, "RoughnessTexture"@, "r"@,
            t.roughness, "raw"@, false),
{
    let name = "RoughnessTexture"@;
    let line = connection("float"@, "roughness"@, "RoughnessTexture"@, "r"@);
    base_color_line();
    metallic_line();
    roughness_line();
    normal_line();
    emission_line();
    occlusion_line();
    shader_names_differ();
    material_is_counted(t, name, line);
    material_reads_back(t, name, line);
    surface_is_counted(t, name, line);
    match t.roughness {
        Some(p) => {
            inputs_stand_in_the_surface(t, line);
            roughness_is_read(t, p);
        },
        None => {},
    }
}

/// The texture of this input is read.
#[verifier::spinoff_prover]
#[verifier::rlimit(40)]
proof fn roughness_is_read(t: TexturesModel, p: Seq<char>)
    requires
        is_plain(t),
        t.roughness == Some(p),
    ensures
        is_read(read_lines(t), "RoughnessTexture"@, p, "raw"@, false),
{
    let name = "RoughnessTexture"@;
    metallic_line();
    material_reads_back(t, name, connection("float"@, "metallic"@, "MetallicTexture"@, "r"@));
    let block = shader_block(name, p, "raw"@, false);
    assert(optional_block(name, t.roughness, "raw"@, false) == block) by {
        reveal(optional_block);
    }
    reveal(texture_lines);
    let s0 = optional_block("BaseColorTexture"@, t.base_color, "sRGB"@, false);
    let s1 = optional_block("MetallicTexture"@, t.metallic, "raw"@, false);
    let s3 = optional_block("NormalTexture"@, t.normal, "raw"@, true);
    let s4 = optional_block("EmissionTexture"@, t.emission, "sRGB"@, false);
    let s5 = optional_block("OcclusionTexture"@, t.occlusion, "raw"@, false);
    let top = head_lines() + surface_lines(t) + reader_lines(t.uv_primvar);
    let before = top + s0 + s1;
    let after = s3 + s4 + s5 + seq!["}"@] + Seq::<Seq<char>>::empty() + seq![Seq::<char>::empty()];
    parts_follow(top, s0, s1, block, s3, s4, s5, seq!["}"@]);
    assert(read_lines(t) == before + block + after);
    shader_is_read(before, name, p, "raw"@, false, after);
}

/// This input is fed by its texture.
#[verifier::spinoff_prover]
#[verifier::rlimit(40)]
proof fn normal_is_fed(t: TexturesModel)
    requires
        is_plain(t),
    ensures
        is_fed(read_lines(t), surface_end(t), "normal3f"@, "normal"@, "NormalTexture"@, "rgb"@,
            t.normal, "raw"@, true),
{
    let name = "NormalTexture"@;
    let line = connection("normal3f"@, "normal"@, "NormalTexture"@, "rgb"@);
    base_color_line();
    metallic_line();
    roughness_line();
    normal_line();
    emission_line();
    occlusion_line();
    shader_names_differ();
    material_is_counted(t, name, line);
    material_reads_back(t, name, line);
    surface_is_counted(t, name, line);
    match t.normal {
        Some(p) => {
            inputs_stand_in_the_surface(t, line);
            normal_is_read(t, p);
        },
        None => {},
    }
}

/// The texture of this input is read.
#[verifier::spinoff_prover]
#[verifier::rlimit(40)]
proof fn normal_is_read(t: TexturesModel, p: Seq<char>)
    requires
        is_plain(t),
        t.normal == Some(p),
    ensures
        is_read(read_lines(t), "NormalTexture"@, p, "raw"@, true),
{
    let name = "NormalTexture"@;
    metallic_line();
    material_reads_back(t, name, connection("float"@, "metallic"@, "MetallicTexture"@, "r"@));
    let block = shader_block(name, p, "raw"@, true);
    assert(optional_block(name, t.normal, "raw"@, true) == block) by {
        reveal(optional_block);
    }
    reveal(texture_lines);
    let s0 = optional_block("BaseColorTexture"@, t.base_color, "sRGB"@, false);
    let s1 = optional_block("MetallicTexture"@, t.metallic, "raw"@, false);
    let s2 = optional_block("RoughnessTexture"@, t.roughness, "raw"@, false);
    let s4 = optional_block("EmissionTexture"@, t.emission, "sRGB"@, false);
    let s5 = optional_block("OcclusionTexture"@, t.occlusion, "raw"@, false);
    let top = head_lines() + surface_lines(t) + reader_lines(t.uv_primvar);
    let before = top + s0 + s1 + s2;
    let after = s4 + s5 + seq!["}"@] + Seq::<Seq<char>>::empty() + seq![Seq::<char>::empty()];
    parts_follow(top, s0, s1, s2, block, s4, s5, seq!["}"@]);
    assert(read_lines(t) == before + block + after);
    shader_is_read(before, name, p, "raw"@, true, after);
}

/// This input is fed by its texture.
#[verifier::spinoff_prover]
#[verifier::rlimit(40)]
proof fn emission_is_fed(t: TexturesModel)
    requires
        is_plain(t),
    ensures
        is_fed(read_lines(t), surface_end(t), "color3f"@, "emissiveColor"@, "EmissionTexture"@,
            "rgb"@, t.emission, "sRGB"@, false),
{
    let name = "EmissionTexture"@;
    let line = connection("color3f"@, "emissiveColor"@, "EmissionTexture"@, "rgb"@);
    base_color_line();
    metallic_line();
    roughness_line();
    normal_line();
    emission_line();
    occlusion_line();
    shader_names_differ();
    material_is_counted(t, name, line);
    material_reads_back(t, name, line);
    surface_is_counted(t, name, line);
    match t.emission {
        Some(p) => {
            inputs_stand_in_the_surface(t, line);
            emission_is_read(t, p);
        },
        None => {},
    }
}

/// The texture of this input is read.
#[verifier::spinoff_prover]
#[verifier::rlimit(40)]
proof fn emission_is_read(t: TexturesModel, p: Seq<char>)
    requires
        is_plain(t),
        t.emission == Some(p),
    ensures
        is_read(read_lines(t), "EmissionTexture"@, p, "sRGB"@, false),
{
    let name = "EmissionTexture"@;
    metallic_line();
    material_reads_back(t, name, connection("float"@, "metallic"@, "MetallicTexture"@, "r"@));
    let block = shader_block(name, p, "sRGB"@, false);
    assert(optional_block(name, t.emission, "sRGB"@, false) == block) by {
        reveal(optional_block);
    }
    reveal(texture_lines);
    let s0 = optional_block("BaseColorTexture"@, t.base_color, "sRGB"@, false);
    let s1 = optional_block("MetallicTexture"@, t.metallic, "raw"@, false);
    let s2 = optional_block("RoughnessTexture"@, t.roughness, "raw"@, false);
    let s3 = optional_block("NormalTexture"@, t.normal, "raw"@, true);
    let s5 = optional_block("OcclusionTexture"@, t.occlusion, "raw"@, false);
    let top = head_lines() + surface_lines(t) + reader_lines(t.uv_primvar);
    let before = top + s0 + s1 + s2 + s3;
    let after = s5 + seq!["}"@] + Seq::<Seq<char>>::empty() + seq![Seq::<char>::empty()];
    parts_follow(top, s0, s1, s2, s3, block, s5, seq!["}"@]);
    assert(read_lines(t) == before + block + after);
    shader_is_read(before, name, p, "sRGB"@, false, after);
}

/// This input is fed by its texture.
#[verifier::spinoff_prover]
#[verifier::rlimit(40)]
proof fn occlusion_is_fed(t: TexturesModel)
    requires
        is_plain(t),
    ensures
        is_fed(read_lines(t), surface_end(t), "float"@, "occlusion"@, "OcclusionTexture"@, "r"@,
            t.occlusion, "raw"@, false),
{
    let name = "OcclusionTexture"@;
    let line = connection("float"@, "occlusion"@, "OcclusionTexture"@, "r"@);
    base_color_line();
    metallic_line();
    roughness_line();
    normal_line();
    emission_line();
    occlusion_line();
    shader_names_differ();
    material_is_counted(t, name, line);
    material_reads_back(t, name, line);
    surface_is_counted(t, name, line);
    match t.occlusion {
        Some(p) => {
            inputs_stand_in_the_surface(t, line);
            occlusion_is_read(t, p);
        },
        None => {},
    }
}

/// The texture of this input is read.
#[verifier::spinoff_prover]
#[verifier::rlimit(40)]
proof fn occlusion_is_read(t: TexturesModel, p: Seq<char>)
    requires
        is_plain(t),
        t.occlusion == Some(p),
    ensures
        is_read(read_lines(t), "OcclusionTexture"@, p, "raw"@, false),
{
    let name = "OcclusionTexture"@;
    metallic_line();
    material_reads_back(t, name, connection("float"@, "metallic"@, "MetallicTexture"@, "r"@));
    let block = shader_block(name, p, "raw"@, false);
    assert(optional_block(name, t.occlusion, "raw"@, false) == block) by {
        reveal(optional_block);
    }
    reveal(texture_lines);
    let s0 = optional_block("BaseColorTexture"@, t.base_color, "sRGB"@, false);
    let s1 = optional_block("MetallicTexture"@, t.metallic, "raw"@, false);
    let s2 = optional_block("RoughnessTexture"@, t.roughness, "raw"@, false);
    let s3 = optional_block("NormalTexture"@, t.normal, "raw"@, true);
    let s4 = optional_block("EmissionTexture"@, t.emission, "sRGB"@, false);
    let top = head_lines() + surface_lines(t) + reader_lines(t.uv_primvar);
    let before = top + s0 + s1 + s2 + s3 + s4;
    let after = seq!["}"@] + Seq::<Seq<char>>::empty() + seq![Seq::<char>::empty()];
    parts_follow(top, s0, s1, s2, s3, s4, block, seq!["}"@]);
    assert(read_lines(t) == before + block + after);
    shader_is_read(before, name, p, "raw"@, false, after);
}

/// The values of inputs without a texture stand in the surface.
#[verifier::spinoff_prover]
#[verifier::rlimit(40)]
proof fn values_stand_in_the_surface(t: TexturesModel)
    requires
        is_plain(t),
    ensures
        t.base_color is None ==> stands_between(read_lines(t), 12, surface_end(t),
            "        color3f inputs:diffuseColor = (0.8, 0.8, 0.8)"@),
        t.metallic is None ==> stands_between(read_lines(t), 12, surface_end(t),
            "        float inputs:metallic = 0.0"@),
        t.roughness is None ==> stands_between(read_lines(t), 12, surface_end(t),
            "        float inputs:roughness = 0.5"@),
        read_lines(t)[10] == shader_line("Surface"@),
        read_lines(t)[11] == "    {"@,
        read_lines(t)[12] == "        uniform token info:id = \"UsdPreviewSurface\""@,
        read_lines(t)[surface_end(t)] == "    }"@,
        forall|i: int|
            10 < i < surface_end(t) ==> #[trigger] read_lines(t)[i] != "    }"@,
        read_lines(t).len() == surface_end(t) + 10 + texture_lines(t).len(),
        read_lines(t)[surface_end(t) + 2] == shader_line("stReader"@),
        read_lines(t)[surface_end(t) + 5] == "        token inputs:varname = \""@ + t.uv_primvar
            + "\""@,
{
    let name = Seq::<char>::empty();
    let line = connection("float"@, "metallic"@, "MetallicTexture"@, "r"@);
    base_color_line();
    metallic_line();
    roughness_line();
    normal_line();
    emission_line();
    occlusion_line();
    material_is_counted(t, name, line);
    material_reads_back(t, name, line);
    head_is_lines();
    head_is_quiet();
    surface_is_counted(t, name, line);
    reader_is_lines(t.uv_primvar);
    shader_tail_is_lines();
    shader_head_is_lines(name);
    let lines = read_lines(t);
    let all = surface_lines(t);
    let end = surface_end(t);
    assert forall|i: int| 0 <= i < all.len() implies lines[13 + i] == #[trigger] all[i] by {}
    assert forall|i: int| 0 <= i < 9 implies lines[end - 1 + i] == #[trigger] reader_lines(
        t.uv_primvar,
    )[i] by {}
    assert(reader_lines(t.uv_primvar)[0] == "        token outputs:surface"@);
    assert(reader_lines(t.uv_primvar)[1] == "    }"@);
    assert(reader_lines(t.uv_primvar)[3] == shader_line("stReader"@));
    assert(lines[10] == head_lines()[10] && lines[11] == head_lines()[11] && lines[12]
        == head_lines()[12]);
    assert(lines[11] != "    }"@ && lines[12] != "    }"@) by {
        reveal_strlit("    {");
        reveal_strlit("    }");
        reveal_strlit("        uniform token info:id = \"UsdPreviewSurface\"");
        assert("    {"@[4] == '{' && "    }"@[4] == '}');
    }
    assert forall|i: int| 10 < i < end implies #[trigger] lines[i] != "    }"@ by {
        if 13 <= i < end - 1 {
            surface_connects(t, i - 13);
            assert(lines[13 + (i - 13)] == all[i - 13]);
        } else if i == end - 1 {
            assert(lines[end - 1 + 0] == reader_lines(t.uv_primvar)[0]);
        }
    }
    if t.base_color is None {
        assert(all[0] == "        color3f inputs:diffuseColor = (0.8, 0.8, 0.8)"@) by {
            reveal(surface_lines);
            reveal(base_color_lines);
            reveal(metallic_lines);
            reveal(roughness_lines);
        }
        assert(lines[13] == "        color3f inputs:diffuseColor = (0.8, 0.8, 0.8)"@);
    }
    if t.metallic is None {
        assert(all[1] == "        float inputs:metallic = 0.0"@) by {
            reveal(surface_lines);
            reveal(base_color_lines);
            reveal(metallic_lines);
            reveal(roughness_lines);
        }
        assert(lines[14] == "        float inputs:metallic = 0.0"@);
    }
    if t.roughness is None {
        assert(all[2] == "        float inputs:roughness = 0.5"@) by {
            reveal(surface_lines);
            reveal(base_color_lines);
            reveal(metallic_lines);
            reveal(roughness_lines);
        }
        assert(lines[15] == "        float inputs:roughness = 0.5"@);
    }
}

/// Every input of the surface that has a texture is connected, once, to a shader that is defined
/// once and reads that very texture in the colour space that is meant for it; an input
/// without a texture is not connected, and colour, metalness and roughness have a value
/// instead. The surface has no other inputs, and the document no other shaders than these and
/// the one that reads places from the primvar of the material.
pub proof fn textures_feed_their_inputs(t: TexturesModel)
    requires
        is_plain(t),
    ensures
        ({
            let lines = split(material_document(t), '\n');
            let end = surface_end(t);
            &&& lines[10] == shader_line("Surface"@)
            &&& lines[11] == "    {"@
            &&& lines[12] == "        uniform token info:id = \"UsdPreviewSurface\""@
            &&& forall|i: int| 10 < i < end ==> #[trigger] lines[i] != "    }"@
            &&& lines[end] == "    }"@
            &&& is_fed(lines, end, "color3f"@, "diffuseColor"@, "BaseColorTexture"@, "rgb"@,
                t.base_color, "sRGB"@, false)
            &&& is_fed(lines, end, "float"@, "metallic"@, "MetallicTexture"@, "r"@, t.metallic,
                "raw"@, false)
            &&& is_fed(lines, end, "float"@, "roughness"@, "RoughnessTexture"@, "r"@, t.roughness,
                "raw"@, false)
            &&& is_fed(lines, end, "normal3f"@, "normal"@, "NormalTexture"@, "rgb"@, t.normal,
                "raw"@, true)
            &&& is_fed(lines, end, "color3f"@, "emissiveColor"@, "EmissionTexture"@, "rgb"@,
                t.emission, "sRGB"@, false)
            &&& is_fed(lines, end, "float"@, "occlusion"@, "OcclusionTexture"@, "r"@, t.occlusion,
                "raw"@, false)
            &&& t.base_color is None ==> stands_between(lines, 12, end,
                "        color3f inputs:diffuseColor = (0.8, 0.8, 0.8)"@)
            &&& t.metallic is None ==> stands_between(lines, 12, end,
                "        float inputs:metallic = 0.0"@)
            &&& t.roughness is None ==> stands_between(lines, 12, end,
                "        float inputs:roughness = 0.5"@)
            &&& lines[end + 2] == shader_line("stReader"@)
            &&& lines[end + 5] == "        token inputs:varname = \""@ + t.uv_primvar + "\""@
            &&& lines.len() == end + 10 + 12 * one_if(t.base_color) + 12 * one_if(t.metallic)
                + 12 * one_if(t.roughness) + 14 * one_if(t.normal) + 12 * one_if(t.emission)
                + 12 * one_if(t.occlusion)
        }),
{
    base_color_is_fed(t);
    metallic_is_fed(t);
    roughness_is_fed(t);
    normal_is_fed(t);
    emission_is_fed(t);
    occlusion_is_fed(t);
    values_stand_in_the_surface(t);
    metallic_line();
    textures_are_counted(t, Seq::empty(), connection("float"@, "metallic"@, "MetallicTexture"@,
        "r"@));
}

/// Whatever is connected is connected to a shader that the document defines, once.
pub proof fn connections_lead_somewhere(t: TexturesModel, i: int)
    requires
        is_plain(t),
        0 <= i < split(material_document(t), '\n').len(),
    ensures
        ({
            let lines = split(material_document(t), '\n');
            is_connection(lines[i]) ==> times(lines, shader_line(connected_shader(lines[i]))) == 1
        }),
{
    let lines = read_lines(t);
    let to = connected_shader(lines[i]);
    let line = connection("float"@, "metallic"@, "MetallicTexture"@, "r"@);
    metallic_line();
    shader_names_differ();
    material_is_counted(t, to, line);
    material_reads_back(t, to, line);
    if is_connection(lines[i]) {
        connections_are_known(t, i);
    }
}

/// The shaders that are connected.
#[verifier::spinoff_prover]
#[verifier::rlimit(40)]
proof fn connections_are_known(t: TexturesModel, i: int)
    requires
        is_plain(t),
        0 <= i < read_lines(t).len(),
        is_connection(read_lines(t)[i]),
    ensures
        ({
            let to = connected_shader(read_lines(t)[i]);
            ||| to == "Surface"@
            ||| to == "stReader"@
            ||| to == "BaseColorTexture"@ && t.base_color is Some
            ||| to == "MetallicTexture"@ && t.metallic is Some
            ||| to == "RoughnessTexture"@ && t.roughness is Some
            ||| to == "NormalTexture"@ && t.normal is Some
            ||| to == "EmissionTexture"@ && t.emission is Some
            ||| to == "OcclusionTexture"@ && t.occlusion is Some
        }),
{
    let name = Seq::<char>::empty();
    let line = connection("float"@, "metallic"@, "MetallicTexture"@, "r"@);
    metallic_line();
    material_is_counted(t, name, line);
    material_reads_back(t, name, line);
    close_is_quiet();
    head_is_lines();
    head_is_counted(name, line);
    reader_is_lines(t.uv_primvar);
    reader_is_counted(t.uv_primvar, name, line);
    let lines = read_lines(t);
    let (a, b, c, d) = (
        head_lines(),
        surface_lines(t),
        reader_lines(t.uv_primvar),
        texture_lines(t),
    );
    let n = (a + b).len() as int;
    let m = (a + b + c).len() as int;
    if i < a.len() {
        assert(lines[i] == a[i]);
    } else if i < n {
        surface_connects(t, i - a.len());
        assert(lines[i] == b[i - a.len()]);
    } else if i < m {
        assert(lines[i] == c[i - n]);
    } else if i < m + d.len() {
        textures_connect(t, i - m);
        assert(lines[i] == d[i - m]);
    } else if i == m + d.len() {
        assert(lines[i] == "}"@);
    }
}

} // verus!
