//! The parts of a USD text document that the mesh converters share.

use crate::lines::{are_lines, is_line, lines_add_up, of_lines, one_more_line, pieces_end, pieces_go_on};
use crate::text::{decimal, decimal_reads_back, decimal_text, digits_value, split};
use vstd::prelude::*;

verus! {

/// The texts of three coordinates.
pub struct TripleText {
    pub x: String,
    pub y: String,
    pub z: String,
}

/// The texts of two coordinates.
pub struct PairText {
    pub u: String,
    pub v: String,
}

/// How the entries of a list belong to a mesh: one for each corner of each face, or one
/// for each point.
#[derive(Clone, Copy, Debug, PartialEq, Eq, Structural)]
pub enum Interpolation {
    FaceVarying,
    Vertex,
}

impl TripleText {
    /// `(x, y, z)`.
    pub open spec fn tuple(self) -> Seq<char> {
        "("@ + self.x@ + ", "@ + self.y@ + ", "@ + self.z@ + ")"@
    }

    /// Writes `(x, y, z)`.
    pub fn write(&self, out: &mut String)
        ensures
            final(out)@ == old(out)@ + self.tuple(),
    {
        let text = String::from_str("(").concat(self.x.as_str()).concat(", ").concat(
            self.y.as_str(),
        ).concat(", ").concat(self.z.as_str()).concat(")");
        out.append(text.as_str());
    }
}

impl PairText {
    /// `(u, v)`.
    pub open spec fn tuple(self) -> Seq<char> {
        "("@ + self.u@ + ", "@ + self.v@ + ")"@
    }

    /// Writes `(u, v)`.
    pub fn write(&self, out: &mut String)
        ensures
            final(out)@ == old(out)@ + self.tuple(),
    {
        let text = String::from_str("(").concat(self.u.as_str()).concat(", ").concat(
            self.v.as_str(),
        ).concat(")");
        out.append(text.as_str());
    }
}

/// What closes a row of a list: a comma, except after the last one.
pub open spec fn row_end(last: bool) -> Seq<char> {
    if last {
        "\n"@
    } else {
        ",\n"@
    }
}

/// What closes a row of a list.
fn row_ending(last: bool) -> (r: &'static str)
    ensures
        r@ == row_end(last),
{
    if last {
        "\n"
    } else {
        ",\n"
    }
}

/// The first `n` rows of a list of triples.
pub open spec fn triple_rows(list: Seq<TripleText>, n: nat) -> Seq<char>
    decreases n,
{
    if n == 0 {
        Seq::empty()
    } else {
        triple_rows(list, (n - 1) as nat) + "            "@ + list[n - 1].tuple() + row_end(
            n == list.len(),
        )
    }
}

/// The first `n` rows of a list of pairs.
pub open spec fn pair_rows(list: Seq<PairText>, n: nat) -> Seq<char>
    decreases n,
{
    if n == 0 {
        Seq::empty()
    } else {
        pair_rows(list, (n - 1) as nat) + "            "@ + list[n - 1].tuple() + row_end(
            n == list.len(),
        )
    }
}

/// `n` threes.
pub open spec fn threes(n: nat) -> Seq<char>
    decreases n,
{
    if n == 0 {
        Seq::empty()
    } else if n == 1 {
        "3"@
    } else {
        threes((n - 1) as nat) + ", 3"@
    }
}

/// The first `n` numbers of a list.
pub open spec fn numbers(list: Seq<u32>, n: nat) -> Seq<char>
    decreases n,
{
    if n == 0 {
        Seq::empty()
    } else if n == 1 {
        decimal(list[0] as nat)
    } else {
        numbers(list, (n - 1) as nat) + ", "@ + decimal(list[n - 1] as nat)
    }
}

/// The numbers below `n`.
pub open spec fn counting(n: nat) -> Seq<char>
    decreases n,
{
    if n == 0 {
        Seq::empty()
    } else if n == 1 {
        decimal(0)
    } else {
        counting((n - 1) as nat) + ", "@ + decimal((n - 1) as nat)
    }
}

/// The line that gives every face three corners.
pub open spec fn face_vertex_counts(triangles: nat) -> Seq<char> {
    "        int[] faceVertexCounts = ["@ + threes(triangles) + "]\n"@
}

/// The line that lists the points of the corners.
pub open spec fn face_vertex_indices(list: Seq<char>) -> Seq<char> {
    "        int[] faceVertexIndices = ["@ + list + "]\n"@
}

/// The list of points.
pub open spec fn points_block(points: Seq<TripleText>) -> Seq<char> {
    "        point3f[] points = [\n"@ + triple_rows(points, points.len()) + "        ]\n"@
}

/// What follows a list, to say how its entries belong to the mesh.
pub open spec fn block_end(interpolation: Interpolation) -> Seq<char> {
    match interpolation {
        Interpolation::FaceVarying =>
            "        ] (\n            interpolation = \"faceVarying\"\n        )\n"@,
        Interpolation::Vertex =>
            "        ] (\n            interpolation = \"vertex\"\n        )\n"@,
    }
}

/// The list of normals.
pub open spec fn normals_block(normals: Seq<TripleText>, interpolation: Interpolation) -> Seq<
    char,
> {
    "        normal3f[] normals = [\n"@ + triple_rows(normals, normals.len()) + block_end(
        interpolation,
    )
}

/// The list of texture coordinates.
pub open spec fn uvs_block(uvs: Seq<PairText>, interpolation: Interpolation) -> Seq<char> {
    "        texCoord2f[] primvars:st = [\n"@ + pair_rows(uvs, uvs.len()) + block_end(
        interpolation,
    )
}

/// What stands before the first prim below the root.
pub open spec fn document_start() -> Seq<char> {
    "#usda 1.0\n(\n    defaultPrim = \"root\"\n    metersPerUnit = 1\n    upAxis = \"Y\"\n)\n\ndef Xform \"root\"\n{\n"@
}

/// What opens a mesh.
pub open spec fn mesh_start(name: Seq<char>) -> Seq<char> {
    "    def Mesh \""@ + name + "\"\n    {\n"@
}

/// What closes a mesh.
pub open spec fn mesh_end() -> Seq<char> {
    "        uniform token subdivisionScheme = \"none\"\n    }\n"@
}

/// What stands before the first prim below the root.
pub fn begin_document() -> (r: String)
    ensures
        r@ == document_start(),
{
    String::from_str(
        "#usda 1.0\n(\n    defaultPrim = \"root\"\n    metersPerUnit = 1\n    upAxis = \"Y\"\n)\n\ndef Xform \"root\"\n{\n",
    )
}

/// Opens a mesh.
pub fn begin_mesh(text: &mut String, name: &str)
    ensures
        final(text)@ == old(text)@ + mesh_start(name@),
{
    let block = String::from_str("    def Mesh \"").concat(name).concat("\"\n    {\n");
    text.append(block.as_str());
}

/// Closes a mesh.
pub fn end_mesh(text: &mut String)
    ensures
        final(text)@ == old(text)@ + mesh_end(),
{
    text.append("        uniform token subdivisionScheme = \"none\"\n    }\n");
}

/// Writes the line that gives every face three corners.
pub fn write_face_vertex_counts(text: &mut String, triangles: usize)
    ensures
        final(text)@ == old(text)@ + face_vertex_counts(triangles as nat),
{
    let mut row = String::from_str("        int[] faceVertexCounts = [");
    let ghost start = row@;
    let mut i: usize = 0;
    proof {
        assert(start + threes(0) =~= start);
    }
    while i < triangles
        invariant
            i <= triangles,
            row@ == start + threes(i as nat),
        decreases triangles - i,
    {
        if i > 0 {
            row.append(", 3");
        } else {
            row.append("3");
        }
        proof {
            assert(row@ =~= start + threes((i + 1) as nat));
        }
        i = i + 1;
    }
    row.append("]\n");
    text.append(row.as_str());
}

/// Writes the line that uses each of `vertex_count` points once.
pub fn write_face_vertex_indices(text: &mut String, vertex_count: usize)
    ensures
        final(text)@ == old(text)@ + face_vertex_indices(counting(vertex_count as nat)),
{
    let mut row = String::from_str("        int[] faceVertexIndices = [");
    let ghost start = row@;
    let mut i: usize = 0;
    proof {
        assert(start + counting(0) =~= start);
    }
    while i < vertex_count
        invariant
            i <= vertex_count,
            row@ == start + counting(i as nat),
        decreases vertex_count - i,
    {
        let number = decimal_text(i as u64);
        if i > 0 {
            row.append(", ");
        }
        row.append(number.as_str());
        proof {
            assert(row@ =~= start + counting((i + 1) as nat));
        }
        i = i + 1;
    }
    row.append("]\n");
    text.append(row.as_str());
}

/// Writes the line that lists the points of the corners.
pub fn write_index_list(text: &mut String, indices: &Vec<u32>)
    ensures
        final(text)@ == old(text)@ + face_vertex_indices(numbers(indices@, indices@.len())),
{
    let mut row = String::from_str("        int[] faceVertexIndices = [");
    let ghost start = row@;
    let mut i: usize = 0;
    proof {
        assert(start + numbers(indices@, 0) =~= start);
    }
    while i < indices.len()
        invariant
            i <= indices@.len(),
            row@ == start + numbers(indices@, i as nat),
        decreases indices@.len() - i,
    {
        let number = decimal_text(indices[i] as u64);
        if i > 0 {
            row.append(", ");
        }
        row.append(number.as_str());
        proof {
            assert(row@ =~= start + numbers(indices@, (i + 1) as nat));
        }
        i = i + 1;
    }
    row.append("]\n");
    text.append(row.as_str());
}

/// The rows of a list of triples.
fn triples_text(list: &Vec<TripleText>) -> (r: String)
    ensures
        r@ == triple_rows(list@, list@.len()),
{
    let mut rows = String::new();
    let n: usize = list.len();
    let mut i: usize = 0;
    while i < n
        invariant
            i <= n == list@.len(),
            rows@ == triple_rows(list@, i as nat),
        decreases n - i,
    {
        rows.append("            ");
        list[i].write(&mut rows);
        rows.append(row_ending(i + 1 == n));
        i = i + 1;
    }
    rows
}

/// The rows of a list of pairs.
fn pairs_text(list: &Vec<PairText>) -> (r: String)
    ensures
        r@ == pair_rows(list@, list@.len()),
{
    let mut rows = String::new();
    let n: usize = list.len();
    let mut i: usize = 0;
    while i < n
        invariant
            i <= n == list@.len(),
            rows@ == pair_rows(list@, i as nat),
        decreases n - i,
    {
        rows.append("            ");
        list[i].write(&mut rows);
        rows.append(row_ending(i + 1 == n));
        i = i + 1;
    }
    rows
}

/// What follows a list.
fn block_ending(interpolation: Interpolation) -> (r: &'static str)
    ensures
        r@ == block_end(interpolation),
{
    match interpolation {
        Interpolation::FaceVarying =>
            "        ] (\n            interpolation = \"faceVarying\"\n        )\n",
        Interpolation::Vertex =>
            "        ] (\n            interpolation = \"vertex\"\n        )\n",
    }
}

/// Writes the list of points.
pub fn write_points(text: &mut String, points: &Vec<TripleText>)
    ensures
        final(text)@ == old(text)@ + points_block(points@),
{
    let rows = triples_text(points);
    let block = String::from_str("        point3f[] points = [\n").concat(rows.as_str()).concat(
        "        ]\n",
    );
    text.append(block.as_str());
}

/// Writes the list of normals.
pub fn write_normals(text: &mut String, normals: &Vec<TripleText>, interpolation: Interpolation)
    ensures
        final(text)@ == old(text)@ + normals_block(normals@, interpolation),
{
    let rows = triples_text(normals);
    let block = String::from_str("        normal3f[] normals = [\n").concat(rows.as_str()).concat(
        block_ending(interpolation),
    );
    text.append(block.as_str());
}

/// Writes the list of texture coordinates.
pub fn write_uvs(text: &mut String, uvs: &Vec<PairText>, interpolation: Interpolation)
    ensures
        final(text)@ == old(text)@ + uvs_block(uvs@, interpolation),
{
    let rows = pairs_text(uvs);
    let block = String::from_str("        texCoord2f[] primvars:st = [\n").concat(
        rows.as_str(),
    ).concat(block_ending(interpolation));
    text.append(block.as_str());
}

/// Whether a text between brackets lists numbers: they stand between commas, each but the
/// first after a space.
pub open spec fn lists_numbers(text: Seq<char>, list: Seq<nat>) -> bool {
    if list.len() == 0 {
        text.len() == 0
    } else {
        let pieces = split(text, ',');
        &&& pieces.len() == list.len()
        &&& digits_value(pieces[0]) == Some(list[0])
        &&& forall|k: int|
            1 <= k < list.len() ==> (#[trigger] pieces[k]).len() > 0 && pieces[k][0] == ' '
                && digits_value(pieces[k].skip(1)) == Some(list[k])
    }
}

/// A list of one number.
proof fn one_number(x: nat)
    ensures
        lists_numbers(decimal(x), seq![x]),
        is_line(decimal(x)),
{
    decimal_reads_back(x);
    let empty = Seq::<char>::empty();
    assert(split(empty, ',') =~= seq![empty]);
    pieces_go_on(empty, decimal(x), ',');
    assert(empty + decimal(x) =~= decimal(x));
    assert(split(decimal(x), ',') =~= seq![decimal(x)]);
}

/// A list with one more number.
#[verifier::spinoff_prover]
#[verifier::rlimit(40)]
proof fn one_more_number(text: Seq<char>, list: Seq<nat>, x: nat)
    requires
        list.len() > 0,
        lists_numbers(text, list),
        is_line(text),
    ensures
        lists_numbers(text + ", "@ + decimal(x), list.push(x)),
        is_line(text + ", "@ + decimal(x)),
{
    decimal_reads_back(x);
    reveal_strlit(", ");
    let word = seq![' '] + decimal(x);
    assert(word.skip(1) =~= decimal(x));
    pieces_end(text, ',');
    pieces_go_on(text + seq![','], word, ',');
    assert(Seq::<char>::empty() + word =~= word);
    assert((text + seq![',']) + word =~= text + ", "@ + decimal(x));
    assert(split(text + ", "@ + decimal(x), ',') =~= split(text, ',').push(word));
}

/// The line that lists the points of the corners reads back as the list that it was made of.
pub proof fn numbers_read_back(list: Seq<u32>, n: nat)
    requires
        n <= list.len(),
    ensures
        lists_numbers(numbers(list, n), Seq::new(n, |i: int| list[i] as nat)),
        is_line(numbers(list, n)),
    decreases n,
{
    let all = Seq::new(n, |i: int| list[i] as nat);
    if n == 1 {
        one_number(list[0] as nat);
        assert(all =~= seq![list[0] as nat]);
    } else if n > 1 {
        let before = Seq::new((n - 1) as nat, |i: int| list[i] as nat);
        numbers_read_back(list, (n - 1) as nat);
        one_more_number(numbers(list, (n - 1) as nat), before, list[n - 1] as nat);
        assert(all =~= before.push(list[n - 1] as nat));
    }
}

/// Counting reads back as the numbers from zero on.
pub proof fn counting_reads_back(n: nat)
    ensures
        lists_numbers(counting(n), Seq::new(n, |i: int| i as nat)),
        is_line(counting(n)),
    decreases n,
{
    let all = Seq::new(n, |i: int| i as nat);
    if n == 1 {
        one_number(0);
        assert(all =~= seq![0nat]);
    } else if n > 1 {
        let before = Seq::new((n - 1) as nat, |i: int| i as nat);
        counting_reads_back((n - 1) as nat);
        one_more_number(counting((n - 1) as nat), before, (n - 1) as nat);
        assert(all =~= before.push((n - 1) as nat));
    }
}

/// As many threes as there are triangles.
pub proof fn threes_read_back(n: nat)
    ensures
        lists_numbers(threes(n), Seq::new(n, |i: int| 3nat)),
        is_line(threes(n)),
    decreases n,
{
    let all = Seq::new(n, |i: int| 3nat);
    reveal_strlit("3");
    reveal_strlit(", 3");
    reveal_strlit(", ");
    assert(decimal(3) =~= "3"@);
    if n == 1 {
        one_number(3);
        assert(all =~= seq![3nat]);
    } else if n > 1 {
        let before = Seq::new((n - 1) as nat, |i: int| 3nat);
        threes_read_back((n - 1) as nat);
        one_more_number(threes((n - 1) as nat), before, 3);
        assert(threes((n - 1) as nat) + ", "@ + decimal(3) =~= threes(n));
        assert(all =~= before.push(3));
    }
}

/// Whether a line lists numbers between brackets.
pub open spec fn is_number_line(line: Seq<char>, start: Seq<char>, list: Seq<nat>) -> bool {
    exists|text: Seq<char>| lists_numbers(text, list) && line == #[trigger] (start + text) + "]"@
}

/// Whether lines, from one on, list triples: one on each line, `x` before `y` before `z`, and
/// a comma after each but the last.
pub open spec fn lists_triples(lines: Seq<Seq<char>>, at: int, list: Seq<TripleText>) -> bool {
    forall|j: int|
        0 <= j < list.len() ==> #[trigger] lines[at + j] == "            ("@ + list[j].x@ + ", "@
            + list[j].y@ + ", "@ + list[j].z@ + (if j + 1 == list.len() {
            ")"@
        } else {
            "),"@
        })
}

/// Whether lines, from one on, list pairs: one on each line, `u` before `v`, and a comma after
/// each but the last.
pub open spec fn lists_pairs(lines: Seq<Seq<char>>, at: int, list: Seq<PairText>) -> bool {
    forall|j: int|
        0 <= j < list.len() ==> #[trigger] lines[at + j] == "            ("@ + list[j].u@ + ", "@
            + list[j].v@ + (if j + 1 == list.len() {
            ")"@
        } else {
            "),"@
        })
}

/// Whether three lines close a list whose entries belong to a mesh in a given way.
pub open spec fn closes_list(
    lines: Seq<Seq<char>>,
    at: int,
    interpolation: Interpolation,
) -> bool {
    &&& lines[at] == "        ] ("@
    &&& lines[at + 1] == (match interpolation {
        Interpolation::FaceVarying => "            interpolation = \"faceVarying\""@,
        Interpolation::Vertex => "            interpolation = \"vertex\""@,
    })
    &&& lines[at + 2] == "        )"@
}

/// How many lines a mesh takes.
pub open spec fn mesh_height(points: nat, normals: nat, uvs: nat) -> nat {
    points + normals + uvs + 16
}

/// Whether lines, from one on, show a mesh: its name, a three for each triangle, the points of
/// its corners, and its points, normals and texture coordinates, each under its own heading.
pub open spec fn shows_mesh(
    lines: Seq<Seq<char>>,
    at: int,
    name: Seq<char>,
    corners: Seq<nat>,
    points: Seq<TripleText>,
    normals: Seq<TripleText>,
    uvs: Seq<PairText>,
    interpolation: Interpolation,
) -> bool {
    let n = at + 6 + points.len();
    let u = n + 4 + normals.len();
    let end = u + 4 + uvs.len();
    &&& lines[at] == "    def Mesh \""@ + name + "\""@
    &&& lines[at + 1] == "    {"@
    &&& is_number_line(
        lines[at + 2],
        "        int[] faceVertexCounts = ["@,
        Seq::new(corners.len() / 3, |i: int| 3nat),
    )
    &&& is_number_line(lines[at + 3], "        int[] faceVertexIndices = ["@, corners)
    &&& lines[at + 4] == "        point3f[] points = ["@
    &&& lists_triples(lines, at + 5, points)
    &&& lines[n - 1] == "        ]"@
    &&& lines[n] == "        normal3f[] normals = ["@
    &&& lists_triples(lines, n + 1, normals)
    &&& closes_list(lines, u - 3, interpolation)
    &&& lines[u] == "        texCoord2f[] primvars:st = ["@
    &&& lists_pairs(lines, u + 1, uvs)
    &&& closes_list(lines, end - 3, interpolation)
    &&& lines[end] == "        uniform token subdivisionScheme = \"none\""@
    &&& lines[end + 1] == "    }"@
}

/// Whether the coordinates stay on one line.
pub open spec fn triples_are_lines(list: Seq<TripleText>) -> bool {
    forall|j: int|
        0 <= j < list.len() ==> is_line((#[trigger] list[j]).x@) && is_line(list[j].y@) && is_line(
            list[j].z@,
        )
}

/// Whether the coordinates stay on one line.
pub open spec fn pairs_are_lines(list: Seq<PairText>) -> bool {
    forall|j: int|
        0 <= j < list.len() ==> is_line((#[trigger] list[j]).u@) && is_line(list[j].v@)
}

/// The lines of the first `n` triples.
spec fn triple_lines(list: Seq<TripleText>, n: nat) -> Seq<Seq<char>> {
    Seq::new(
        n,
        |j: int|
            "            ("@ + list[j].x@ + ", "@ + list[j].y@ + ", "@ + list[j].z@ + (if j + 1
                == list.len() {
                ")"@
            } else {
                "),"@
            }),
    )
}

/// The lines of the first `n` pairs.
spec fn pair_lines(list: Seq<PairText>, n: nat) -> Seq<Seq<char>> {
    Seq::new(
        n,
        |j: int|
            "            ("@ + list[j].u@ + ", "@ + list[j].v@ + (if j + 1 == list.len() {
                ")"@
            } else {
                "),"@
            }),
    )
}

/// The rows of triples are lines.
proof fn triple_rows_are_lines(list: Seq<TripleText>, n: nat)
    requires
        n <= list.len(),
        triples_are_lines(list),
    ensures
        triple_rows(list, n) == of_lines(triple_lines(list, n)),
        are_lines(triple_lines(list, n)),
    decreases n,
{
    if n > 0 {
        let m = (n - 1) as nat;
        triple_rows_are_lines(list, m);
        reveal_strlit("            (");
        reveal_strlit("            ");
        reveal_strlit("(");
        reveal_strlit(", ");
        reveal_strlit(")");
        reveal_strlit("),");
        reveal_strlit("\n");
        reveal_strlit(",\n");
        let line = triple_lines(list, n)[m as int];
        assert(is_line(list[m as int].x@));
        assert(triple_lines(list, n) =~= triple_lines(list, m).push(line));
        one_more_line(triple_lines(list, m), line);
        assert(triple_rows(list, n) =~= triple_rows(list, m) + line + seq!['\n']);
    } else {
        assert(triple_lines(list, 0) =~= Seq::<Seq<char>>::empty());
    }
}

/// The rows of pairs are lines.
proof fn pair_rows_are_lines(list: Seq<PairText>, n: nat)
    requires
        n <= list.len(),
        pairs_are_lines(list),
    ensures
        pair_rows(list, n) == of_lines(pair_lines(list, n)),
        are_lines(pair_lines(list, n)),
    decreases n,
{
    if n > 0 {
        let m = (n - 1) as nat;
        pair_rows_are_lines(list, m);
        reveal_strlit("            (");
        reveal_strlit("            ");
        reveal_strlit("(");
        reveal_strlit(", ");
        reveal_strlit(")");
        reveal_strlit("),");
        reveal_strlit("\n");
        reveal_strlit(",\n");
        let line = pair_lines(list, n)[m as int];
        assert(is_line(list[m as int].u@));
        assert(pair_lines(list, n) =~= pair_lines(list, m).push(line));
        one_more_line(pair_lines(list, m), line);
        assert(pair_rows(list, n) =~= pair_rows(list, m) + line + seq!['\n']);
    } else {
        assert(pair_lines(list, 0) =~= Seq::<Seq<char>>::empty());
    }
}

/// What closes a list, as lines.
spec fn closing_lines(interpolation: Interpolation) -> Seq<Seq<char>> {
    seq![
        "        ] ("@,
        match interpolation {
            Interpolation::FaceVarying => "            interpolation = \"faceVarying\""@,
            Interpolation::Vertex => "            interpolation = \"vertex\""@,
        },
        "        )"@,
    ]
}

/// What closes a list is three lines.
proof fn block_end_is_lines(interpolation: Interpolation)
    ensures
        block_end(interpolation) == of_lines(closing_lines(interpolation)),
        are_lines(closing_lines(interpolation)),
{
    let all = closing_lines(interpolation);
    reveal_strlit("        ] (");
    reveal_strlit("        )");
    reveal_strlit("            interpolation = \"faceVarying\"");
    reveal_strlit("            interpolation = \"vertex\"");
    reveal_strlit("        ] (\n            interpolation = \"faceVarying\"\n        )\n");
    reveal_strlit("        ] (\n            interpolation = \"vertex\"\n        )\n");
    three_lines(all[0], all[1], all[2]);
    assert(block_end(interpolation) =~= all[0] + seq!['\n'] + all[1] + seq!['\n'] + all[2]
        + seq!['\n']);
}

/// The text of one line.
pub proof fn one_line(a: Seq<char>)
    ensures
        of_lines(seq![a]) == a + seq!['\n'],
{
    one_more_line(Seq::empty(), a);
    assert(Seq::<Seq<char>>::empty().push(a) =~= seq![a]);
    assert(of_lines(Seq::<Seq<char>>::empty()) + a =~= a);
}

/// The text of two lines.
pub proof fn two_lines(a: Seq<char>, b: Seq<char>)
    ensures
        of_lines(seq![a, b]) == a + seq!['\n'] + b + seq!['\n'],
{
    one_line(a);
    one_more_line(seq![a], b);
    assert(seq![a].push(b) =~= seq![a, b]);
}

/// The text of three lines.
pub proof fn three_lines(a: Seq<char>, b: Seq<char>, c: Seq<char>)
    ensures
        of_lines(seq![a, b, c]) == a + seq!['\n'] + b + seq!['\n'] + c + seq!['\n'],
{
    two_lines(a, b);
    one_more_line(seq![a, b], c);
    assert(seq![a, b].push(c) =~= seq![a, b, c]);
}

/// Lists of lines one after the other.
pub proof fn lines_follow(a: Seq<Seq<char>>, b: Seq<Seq<char>>)
    requires
        are_lines(a),
        are_lines(b),
    ensures
        are_lines(a + b),
        of_lines(a + b) == of_lines(a) + of_lines(b),
{
    lines_add_up(a, b);
    assert forall|i: int| 0 <= i < (a + b).len() implies is_line(#[trigger] (a + b)[i]) by {
        if i < a.len() {
            assert((a + b)[i] == a[i]);
        } else {
            assert((a + b)[i] == b[i - a.len()]);
        }
    }
}

/// What stands before the first coordinate, as lines.
spec fn opening_lines(name: Seq<char>, counts: Seq<char>, indices: Seq<char>) -> Seq<Seq<char>> {
    seq!["    def Mesh \""@ + name + "\""@, "    {"@] + seq![
        "        int[] faceVertexCounts = ["@ + counts + "]"@,
    ] + seq!["        int[] faceVertexIndices = ["@ + indices + "]"@]
}

/// What stands before the first coordinate is lines.
#[verifier::spinoff_prover]
#[verifier::rlimit(40)]
proof fn opening_is_lines(name: Seq<char>, triangles: nat, indices: Seq<char>)
    requires
        is_line(name),
        is_line(indices),
    ensures
        mesh_start(name) + face_vertex_counts(triangles) + face_vertex_indices(indices)
            == of_lines(opening_lines(name, threes(triangles), indices)),
        are_lines(opening_lines(name, threes(triangles), indices)),
{
    threes_read_back(triangles);
    reveal_strlit("    def Mesh \"");
    reveal_strlit("\"");
    reveal_strlit("    {");
    reveal_strlit("\"\n    {\n");
    reveal_strlit("        int[] faceVertexCounts = [");
    reveal_strlit("        int[] faceVertexIndices = [");
    reveal_strlit("]");
    reveal_strlit("]\n");
    let a = "    def Mesh \""@ + name + "\""@;
    let b = "    {"@;
    let c = "        int[] faceVertexCounts = ["@ + threes(triangles) + "]"@;
    let d = "        int[] faceVertexIndices = ["@ + indices + "]"@;
    two_lines(a, b);
    one_line(c);
    one_line(d);
    assert(mesh_start(name) =~= a + seq!['\n'] + b + seq!['\n']);
    assert(face_vertex_counts(triangles) =~= c + seq!['\n']);
    assert(face_vertex_indices(indices) =~= d + seq!['\n']);
    assert(is_line(a) && is_line(b) && is_line(c) && is_line(d));
    lines_follow(seq![a, b], seq![c]);
    lines_follow(seq![a, b] + seq![c], seq![d]);
}

/// The lines of the list of points.
spec fn point_lines(points: Seq<TripleText>) -> Seq<Seq<char>> {
    seq!["        point3f[] points = ["@] + triple_lines(points, points.len()) + seq![
        "        ]"@,
    ]
}

/// The list of points is lines.
proof fn points_are_lines(points: Seq<TripleText>)
    requires
        triples_are_lines(points),
    ensures
        points_block(points) == of_lines(point_lines(points)),
        are_lines(point_lines(points)),
{
    let a = "        point3f[] points = ["@;
    let b = "        ]"@;
    reveal_strlit("        point3f[] points = [\n");
    reveal_strlit("        point3f[] points = [");
    reveal_strlit("        ]\n");
    reveal_strlit("        ]");
    triple_rows_are_lines(points, points.len());
    one_line(a);
    one_line(b);
    assert("        point3f[] points = [\n"@ =~= a + seq!['\n']);
    assert("        ]\n"@ =~= b + seq!['\n']);
    lines_follow(seq![a], triple_lines(points, points.len()));
    lines_follow(seq![a] + triple_lines(points, points.len()), seq![b]);
}

/// The lines of the list of normals.
spec fn normal_lines(normals: Seq<TripleText>, interpolation: Interpolation) -> Seq<Seq<char>> {
    seq!["        normal3f[] normals = ["@] + triple_lines(normals, normals.len())
        + closing_lines(interpolation)
}

/// The list of normals is lines.
proof fn normals_are_lines(normals: Seq<TripleText>, interpolation: Interpolation)
    requires
        triples_are_lines(normals),
    ensures
        normals_block(normals, interpolation) == of_lines(normal_lines(normals, interpolation)),
        are_lines(normal_lines(normals, interpolation)),
{
    let a = "        normal3f[] normals = ["@;
    reveal_strlit("        normal3f[] normals = [\n");
    reveal_strlit("        normal3f[] normals = [");
    triple_rows_are_lines(normals, normals.len());
    block_end_is_lines(interpolation);
    one_line(a);
    assert("        normal3f[] normals = [\n"@ =~= a + seq!['\n']);
    lines_follow(seq![a], triple_lines(normals, normals.len()));
    lines_follow(seq![a] + triple_lines(normals, normals.len()), closing_lines(interpolation));
}

/// The lines of the list of texture coordinates.
spec fn uv_lines(uvs: Seq<PairText>, interpolation: Interpolation) -> Seq<Seq<char>> {
    seq!["        texCoord2f[] primvars:st = ["@] + pair_lines(uvs, uvs.len()) + closing_lines(
        interpolation,
    )
}

/// The list of texture coordinates is lines.
proof fn uvs_are_lines(uvs: Seq<PairText>, interpolation: Interpolation)
    requires
        pairs_are_lines(uvs),
    ensures
        uvs_block(uvs, interpolation) == of_lines(uv_lines(uvs, interpolation)),
        are_lines(uv_lines(uvs, interpolation)),
{
    let a = "        texCoord2f[] primvars:st = ["@;
    reveal_strlit("        texCoord2f[] primvars:st = [\n");
    reveal_strlit("        texCoord2f[] primvars:st = [");
    pair_rows_are_lines(uvs, uvs.len());
    block_end_is_lines(interpolation);
    one_line(a);
    assert("        texCoord2f[] primvars:st = [\n"@ =~= a + seq!['\n']);
    lines_follow(seq![a], pair_lines(uvs, uvs.len()));
    lines_follow(seq![a] + pair_lines(uvs, uvs.len()), closing_lines(interpolation));
}

/// What closes a mesh, as lines.
spec fn mesh_end_lines() -> Seq<Seq<char>> {
    seq!["        uniform token subdivisionScheme = \"none\""@, "    }"@]
}

/// What closes a mesh is two lines.
proof fn mesh_end_is_lines()
    ensures
        mesh_end() == of_lines(mesh_end_lines()),
        are_lines(mesh_end_lines()),
{
    let a = "        uniform token subdivisionScheme = \"none\""@;
    let b = "    }"@;
    reveal_strlit("        uniform token subdivisionScheme = \"none\"");
    reveal_strlit("    }");
    reveal_strlit("        uniform token subdivisionScheme = \"none\"\n    }\n");
    two_lines(a, b);
    assert(mesh_end() =~= a + seq!['\n'] + b + seq!['\n']);
    assert(is_line(a) && is_line(b));
}

/// The lines of a mesh.
pub closed spec fn mesh_lines(
    name: Seq<char>,
    triangles: nat,
    indices: Seq<char>,
    points: Seq<TripleText>,
    normals: Seq<TripleText>,
    uvs: Seq<PairText>,
    interpolation: Interpolation,
) -> Seq<Seq<char>> {
    opening_lines(name, threes(triangles), indices) + point_lines(points) + normal_lines(
        normals,
        interpolation,
    ) + uv_lines(uvs, interpolation) + mesh_end_lines()
}

/// A mesh is written on lines of its own, which show it.
#[verifier::spinoff_prover]
#[verifier::rlimit(40)]
pub proof fn a_mesh_is_shown(
    name: Seq<char>,
    corners: Seq<nat>,
    indices: Seq<char>,
    points: Seq<TripleText>,
    normals: Seq<TripleText>,
    uvs: Seq<PairText>,
    interpolation: Interpolation,
)
    requires
        is_line(name),
        is_line(indices),
        lists_numbers(indices, corners),
        triples_are_lines(points),
        triples_are_lines(normals),
        pairs_are_lines(uvs),
    ensures
        ({
            let triangles = corners.len() / 3;
            let lines = mesh_lines(name, triangles, indices, points, normals, uvs, interpolation);
            &&& are_lines(lines)
            &&& lines.len() == mesh_height(points.len(), normals.len(), uvs.len())
            &&& of_lines(lines) == mesh_start(name) + face_vertex_counts(triangles)
                + face_vertex_indices(indices) + points_block(points) + normals_block(
                normals,
                interpolation,
            ) + uvs_block(uvs, interpolation) + mesh_end()
            &&& shows_mesh(lines, 0, name, corners, points, normals, uvs, interpolation)
        }),
{
    let triangles = corners.len() / 3;
    let lines = mesh_lines(name, triangles, indices, points, normals, uvs, interpolation);
    let a = opening_lines(name, threes(triangles), indices);
    let b = point_lines(points);
    let c = normal_lines(normals, interpolation);
    let d = uv_lines(uvs, interpolation);
    let e = mesh_end_lines();
    opening_is_lines(name, triangles, indices);
    points_are_lines(points);
    normals_are_lines(normals, interpolation);
    uvs_are_lines(uvs, interpolation);
    mesh_end_is_lines();
    lines_follow(a, b);
    lines_follow(a + b, c);
    lines_follow(a + b + c, d);
    lines_follow(a + b + c + d, e);
    threes_read_back(triangles);
    let counts = Seq::new(triangles, |i: int| 3nat);
    let start = "        int[] faceVertexCounts = ["@;
    assert(lines[2] == (start + threes(triangles)) + "]"@);
    assert(is_number_line(lines[2], start, counts));
    let start = "        int[] faceVertexIndices = ["@;
    assert(lines[3] == (start + indices) + "]"@);
    assert(is_number_line(lines[3], start, corners));
    let n = 6 + points.len();
    let u = n + 4 + normals.len();
    assert forall|j: int| 0 <= j < points.len() implies #[trigger] lines[5 + j] == triple_lines(
        points,
        points.len(),
    )[j] by {}
    assert forall|j: int| 0 <= j < normals.len() implies #[trigger] lines[n + 1 + j]
        == triple_lines(normals, normals.len())[j] by {}
    assert forall|j: int| 0 <= j < uvs.len() implies #[trigger] lines[u + 1 + j] == pair_lines(
        uvs,
        uvs.len(),
    )[j] by {}
}

/// Lines show a mesh wherever they stand.
#[verifier::spinoff_prover]
#[verifier::rlimit(40)]
pub proof fn meshes_are_shown_anywhere(
    lines: Seq<Seq<char>>,
    at: int,
    part: Seq<Seq<char>>,
    name: Seq<char>,
    corners: Seq<nat>,
    points: Seq<TripleText>,
    normals: Seq<TripleText>,
    uvs: Seq<PairText>,
    interpolation: Interpolation,
)
    requires
        part.len() == mesh_height(points.len(), normals.len(), uvs.len()),
        shows_mesh(part, 0, name, corners, points, normals, uvs, interpolation),
        forall|i: int| 0 <= i < part.len() ==> lines[at + i] == #[trigger] part[i],
    ensures
        shows_mesh(lines, at, name, corners, points, normals, uvs, interpolation),
{
    let n = 6 + points.len();
    let u = n + 4 + normals.len();
    let end = u + 4 + uvs.len();
    assert(lines[at + 0] == part[0]);
    assert forall|j: int| 0 <= j < points.len() implies #[trigger] lines[at + 5 + j] == part[0 + 5
        + j] by {}
    assert forall|j: int| 0 <= j < normals.len() implies #[trigger] lines[at + n + 1 + j] == part[0
        + n + 1 + j] by {}
    assert forall|j: int| 0 <= j < uvs.len() implies #[trigger] lines[at + u + 1 + j] == part[0 + u
        + 1 + j] by {}
    assert(part[1] == lines[at + 1] && part[2] == lines[at + 2] && part[3] == lines[at + 3]
        && part[4] == lines[at + 4]);
    assert(part[n - 1] == lines[at + n - 1] && part[n as int] == lines[at + n]);
    assert(part[u - 3] == lines[at + u - 3] && part[u - 2] == lines[at + u - 2] && part[u - 1]
        == lines[at + u - 1] && part[u as int] == lines[at + u]);
    assert(part[end - 3] == lines[at + end - 3] && part[end - 2] == lines[at + end - 2] && part[end
        - 1] == lines[at + end - 1] && part[end as int] == lines[at + end] && part[1 + end as int]
        == lines[at + end + 1]);
}

/// The lines that show a mesh show it by themselves.
#[verifier::spinoff_prover]
#[verifier::rlimit(40)]
pub proof fn shown_by_a_part(
    lines: Seq<Seq<char>>,
    at: int,
    part: Seq<Seq<char>>,
    name: Seq<char>,
    corners: Seq<nat>,
    points: Seq<TripleText>,
    normals: Seq<TripleText>,
    uvs: Seq<PairText>,
    interpolation: Interpolation,
)
    requires
        part.len() == mesh_height(points.len(), normals.len(), uvs.len()),
        shows_mesh(lines, at, name, corners, points, normals, uvs, interpolation),
        forall|i: int| 0 <= i < part.len() ==> lines[at + i] == #[trigger] part[i],
    ensures
        shows_mesh(part, 0, name, corners, points, normals, uvs, interpolation),
{
    let n = 6 + points.len();
    let u = n + 4 + normals.len();
    let end = u + 4 + uvs.len();
    assert(lines[at + 0] == part[0]);
    assert(part[1] == lines[at + 1] && part[2] == lines[at + 2] && part[3] == lines[at + 3]
        && part[4] == lines[at + 4]);
    assert(part[n - 1] == lines[at + n - 1] && part[n as int] == lines[at + n]);
    assert(part[u - 3] == lines[at + u - 3] && part[u - 2] == lines[at + u - 2] && part[u - 1]
        == lines[at + u - 1] && part[u as int] == lines[at + u]);
    assert(part[end - 3] == lines[at + end - 3] && part[end - 2] == lines[at + end - 2] && part[end
        - 1] == lines[at + end - 1] && part[end as int] == lines[at + end] && part[1 + end as int]
        == lines[at + end + 1]);
    assert(lists_triples(part, 5, points)) by {
        assert forall|j: int| 0 <= j < points.len() implies #[trigger] part[5 + j] == lines[at + 5
            + j] by {}
    }
    assert(lists_triples(part, (n + 1) as int, normals)) by {
        assert forall|j: int| 0 <= j < normals.len() implies #[trigger] part[n + 1 + j] == lines[at
            + n + 1 + j] by {}
    }
    assert(lists_pairs(part, (u + 1) as int, uvs)) by {
        assert forall|j: int| 0 <= j < uvs.len() implies #[trigger] part[u + 1 + j] == lines[at + u
            + 1 + j] by {}
    }
}

/// The lines before the first prim below the root.
pub open spec fn root_lines() -> Seq<Seq<char>> {
    seq![
        "#usda 1.0"@,
        "("@,
        "    defaultPrim = \"root\""@,
        "    metersPerUnit = 1"@,
        "    upAxis = \"Y\""@,
        ")"@,
        ""@,
        "def Xform \"root\""@,
        "{"@,
    ]
}

/// What stands before the first prim below the root is nine lines.
#[verifier::spinoff_prover]
#[verifier::rlimit(40)]
pub proof fn document_start_is_lines()
    ensures
        document_start() == of_lines(root_lines()),
        are_lines(root_lines()),
        root_lines().len() == 9,
{
    reveal_strlit("#usda 1.0");
    reveal_strlit("(");
    reveal_strlit("    defaultPrim = \"root\"");
    reveal_strlit("    metersPerUnit = 1");
    reveal_strlit("    upAxis = \"Y\"");
    reveal_strlit(")");
    reveal_strlit("");
    reveal_strlit("def Xform \"root\"");
    reveal_strlit("{");
    reveal_strlit(
        "#usda 1.0\n(\n    defaultPrim = \"root\"\n    metersPerUnit = 1\n    upAxis = \"Y\"\n)\n\ndef Xform \"root\"\n{\n",
    );
    let l = root_lines();
    three_lines(l[0], l[1], l[2]);
    three_lines(l[3], l[4], l[5]);
    three_lines(l[6], l[7], l[8]);
    let a = seq![l[0], l[1], l[2]];
    let b = seq![l[3], l[4], l[5]];
    let c = seq![l[6], l[7], l[8]];
    assert(is_line(l[0]) && is_line(l[1]) && is_line(l[2]));
    assert(is_line(l[3]) && is_line(l[4]) && is_line(l[5]));
    assert(is_line(l[6]) && is_line(l[7]) && is_line(l[8]));
    lines_follow(a, b);
    lines_follow(a + b, c);
    assert(a + b + c =~= l);
    assert(document_start() =~= (l[0] + seq!['\n'] + l[1] + seq!['\n'] + l[2] + seq!['\n']) + (l[3]
        + seq!['\n'] + l[4] + seq!['\n'] + l[5] + seq!['\n']) + (l[6] + seq!['\n'] + l[7]
        + seq!['\n'] + l[8] + seq!['\n']));
}

} // verus!
