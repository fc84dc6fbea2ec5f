//! Wavefront OBJ meshes as USD text.
//!
//! A conversion runs in four steps. `obj_statements` cuts the file into the statements
//! that matter; the caller turns the number texts that `number_texts` lists into
//! numbers; `read_obj` builds the triangulated mesh, or reports the first thing that is
//! wrong with the file; and `write_usda` writes the mesh, given the text of every
//! coordinate.

use crate::lines::{is_line, lines_read_back, of_lines, pieces_end, pieces_go_on};
use crate::single::{Pair, Single, Triple};
use crate::text::{
    chars_of, cut_is_not_empty, decimal, decimal_text, integer_value, parse_isize,
    same_text, split, split_chars, text_of, views, words, words_of,
};
use crate::usda::{
    a_mesh_is_shown, begin_document, begin_mesh, counting, counting_reads_back, document_start,
    document_start_is_lines, end_mesh, face_vertex_counts, face_vertex_indices, lines_follow,
    mesh_end, mesh_height, mesh_lines, mesh_start, meshes_are_shown_anywhere, normals_block,
    one_line, pairs_are_lines, points_block, root_lines, shows_mesh, triples_are_lines, uvs_block,
    write_face_vertex_counts, write_face_vertex_indices, write_normals, write_points, write_uvs,
    Interpolation, PairText, TripleText,
};
use vstd::prelude::*;

verus! {

/// What a conversion produced.
#[derive(Clone, Copy, Debug, PartialEq, Eq, Structural)]
pub struct ObjConversionSummary {
    pub vertices: usize,
    pub triangles: usize,
}

/// The statements that a mesh is made of.
#[derive(Clone, Copy, Debug, PartialEq, Eq, Structural)]
pub enum ObjTag {
    Position,
    TexCoord,
    Normal,
    Face,
}

/// One statement: the line that it stands on, counted from 1, and its words after the
/// tag.
pub struct ObjStatement {
    pub line_no: usize,
    pub tag: ObjTag,
    pub fields: Vec<String>,
}

/// What a number text turned out to be.
#[derive(Clone, Copy, Debug, PartialEq, Eq, Structural)]
pub enum ObjNumber {
    Finite(Single),
    NotFinite,
    Malformed,
}

/// A corner of a face, by indices that count from 0.
#[derive(Clone, Copy, Debug)]
pub struct ObjRef {
    pub position: usize,
    pub texcoord: Option<usize>,
    pub normal: Option<usize>,
}

/// Which of the three lists an index points into.
#[derive(Clone, Copy, Debug, PartialEq, Eq, Structural)]
pub enum ObjLabel {
    Position,
    TexCoord,
    Normal,
}

/// The ways in which a file can be refused.
#[derive(Clone, Copy, Debug, PartialEq, Eq, Structural)]
pub enum ObjErrorKind {
    MissingComponent(ObjTag),
    ParseFloat,
    NonFiniteFloat,
    InvalidFaceVertex,
    ParseIndex(ObjLabel),
    ZeroIndex,
    IndexOutOfRange(ObjLabel, usize),
    ShortFace,
    NoFaces,
}

/// Why a file was refused, on which line, and over which word. A file without faces is
/// refused on line 0.
pub struct ObjError {
    pub kind: ObjErrorKind,
    pub line_no: usize,
    pub text: String,
}

/// A triangulated mesh: three corners for each triangle.
pub struct ObjMesh {
    pub positions: Vec<Triple>,
    pub texcoords: Vec<Pair>,
    pub normals: Vec<Triple>,
    pub corners: Vec<ObjRef>,
}

/// A statement as a value of the specification.
pub struct StatementModel {
    pub line_no: int,
    pub tag: ObjTag,
    pub fields: Seq<Seq<char>>,
}

/// An error as a value of the specification.
pub struct ErrorModel {
    pub kind: ObjErrorKind,
    pub line_no: int,
    pub text: Seq<char>,
}

/// A mesh as a value of the specification.
pub struct MeshModel {
    pub positions: Seq<Triple>,
    pub texcoords: Seq<Pair>,
    pub normals: Seq<Triple>,
    pub corners: Seq<ObjRef>,
}

impl View for ObjStatement {
    type V = StatementModel;

    open spec fn view(&self) -> StatementModel {
        StatementModel {
            line_no: self.line_no as int,
            tag: self.tag,
            fields: views(self.fields@),
        }
    }
}

impl View for ObjError {
    type V = ErrorModel;

    open spec fn view(&self) -> ErrorModel {
        ErrorModel { kind: self.kind, line_no: self.line_no as int, text: self.text@ }
    }
}

impl View for ObjMesh {
    type V = MeshModel;

    open spec fn view(&self) -> MeshModel {
        MeshModel {
            positions: self.positions@,
            texcoords: self.texcoords@,
            normals: self.normals@,
            corners: self.corners@,
        }
    }
}

impl ObjTag {
    /// The word that opens a statement of this kind.
    pub open spec fn word(self) -> Seq<char> {
        match self {
            ObjTag::Position => "v"@,
            ObjTag::TexCoord => "vt"@,
            ObjTag::Normal => "vn"@,
            ObjTag::Face => "f"@,
        }
    }

    /// How many numbers a statement of this kind needs.
    pub open spec fn arity(self) -> nat {
        match self {
            ObjTag::Position => 3,
            ObjTag::TexCoord => 2,
            ObjTag::Normal => 3,
            ObjTag::Face => 0,
        }
    }

    /// How many numbers a statement of this kind needs.
    fn components(self) -> (r: usize)
        ensures
            r == self.arity(),
    {
        match self {
            ObjTag::Position => 3,
            ObjTag::TexCoord => 2,
            ObjTag::Normal => 3,
            ObjTag::Face => 0,
        }
    }

    /// The word that opens a statement of this kind.
    fn keyword(self) -> (r: &'static str)
        ensures
            r@ == self.word(),
    {
        match self {
            ObjTag::Position => "v",
            ObjTag::TexCoord => "vt",
            ObjTag::Normal => "vn",
            ObjTag::Face => "f",
        }
    }
}

/// The kind of statement that a word opens.
pub open spec fn tag_of(word: Seq<char>) -> Option<ObjTag> {
    if word == ObjTag::Position.word() {
        Some(ObjTag::Position)
    } else if word == ObjTag::TexCoord.word() {
        Some(ObjTag::TexCoord)
    } else if word == ObjTag::Normal.word() {
        Some(ObjTag::Normal)
    } else if word == ObjTag::Face.word() {
        Some(ObjTag::Face)
    } else {
        None
    }
}

/// The statement on a line. What follows a `#` is a comment; a line that opens with any
/// other word than the four tags holds no statement.
pub open spec fn statement_on(line: Seq<char>, line_no: int) -> Option<StatementModel> {
    let all = words(split(line, '#')[0]);
    if all.len() == 0 {
        None
    } else {
        match tag_of(all[0]) {
            Some(tag) => Some(StatementModel { line_no, tag, fields: all.skip(1) }),
            None => None,
        }
    }
}

/// The statements on the first `n` lines.
pub open spec fn statements_on(lines: Seq<Seq<char>>, n: nat) -> Seq<StatementModel>
    decreases n,
{
    if n == 0 {
        Seq::empty()
    } else {
        let before = statements_on(lines, (n - 1) as nat);
        match statement_on(lines[n - 1], n as int) {
            Some(s) => before.push(s),
            None => before,
        }
    }
}

/// The statements of a file.
pub open spec fn statements_of(text: Seq<char>) -> Seq<StatementModel> {
    let lines = split(text, '\n');
    statements_on(lines, lines.len())
}

/// Each statement of a list as a value of the specification.
pub open spec fn models(list: Seq<ObjStatement>) -> Seq<StatementModel> {
    Seq::new(list.len(), |i: int| list[i]@)
}

/// The kind of statement that a word opens.
fn tag_for(word: &str) -> (r: Option<ObjTag>)
    ensures
        r == tag_of(word@),
{
    if same_text(word, ObjTag::Position.keyword()) {
        Some(ObjTag::Position)
    } else if same_text(word, ObjTag::TexCoord.keyword()) {
        Some(ObjTag::TexCoord)
    } else if same_text(word, ObjTag::Normal.keyword()) {
        Some(ObjTag::Normal)
    } else if same_text(word, ObjTag::Face.keyword()) {
        Some(ObjTag::Face)
    } else {
        None
    }
}

/// The statement on a line, if there is one.
fn parse_line(line: &Vec<char>, line_no: usize) -> (r: Option<ObjStatement>)
    ensures
        match r {
            Some(s) => statement_on(line@, line_no as int) == Some(s@),
            None => statement_on(line@, line_no as int) is None,
        },
{
    let pieces = split_chars(line, '#');
    proof {
        cut_is_not_empty(line@, |c: char| c == '#');
    }
    let mut all = words_of(&pieces[0]);
    if all.len() == 0 {
        return None;
    }
    let ghost listed = all@;
    let first = all.remove(0);
    proof {
        assert(views(all@) =~= views(listed).skip(1));
        assert(views(listed)[0] == first@);
    }
    match tag_for(first.as_str()) {
        Some(tag) => Some(ObjStatement { line_no, tag, fields: all }),
        None => None,
    }
}

/// The statements of a file, in order.
pub fn obj_statements(text: &str) -> (r: Vec<ObjStatement>)
    ensures
        models(r@) == statements_of(text@),
{
    let lines = split_chars(&chars_of(text), '\n');
    let ghost all = split(text@, '\n');
    let mut out: Vec<ObjStatement> = Vec::new();
    let mut i: usize = 0;
    while i < lines.len()
        invariant
            i <= lines@.len() == all.len(),
            forall|k: int| 0 <= k < lines@.len() ==> (#[trigger] lines@[k])@ == all[k],
            models(out@) == statements_on(all, i as nat),
        decreases lines@.len() - i,
    {
        let ghost before = out@;
        match parse_line(&lines[i], i + 1) {
            Some(s) => {
                out.push(s);
                proof {
                    assert(models(out@) =~= models(before).push(s@));
                }
            },
            None => {},
        }
        i = i + 1;
    }
    out
}

/// How many number texts a statement contributes: the components that are there, as far
/// as the statement needs them.
pub open spec fn number_count(s: StatementModel) -> nat {
    if s.fields.len() < s.tag.arity() {
        s.fields.len()
    } else {
        s.tag.arity()
    }
}

/// How many number texts the first `n` statements contribute.
pub open spec fn numbers_before(list: Seq<StatementModel>, n: nat) -> nat
    decreases n,
{
    if n == 0 {
        0
    } else {
        numbers_before(list, (n - 1) as nat) + number_count(list[n - 1])
    }
}

/// The number texts of the first `n` statements, in the order of the file.
pub open spec fn number_texts_before(list: Seq<StatementModel>, n: nat) -> Seq<Seq<char>>
    decreases n,
{
    if n == 0 {
        Seq::empty()
    } else {
        number_texts_before(list, (n - 1) as nat) + list[n - 1].fields.take(
            number_count(list[n - 1]) as int,
        )
    }
}

/// The list of number texts is as long as the counts say.
pub proof fn number_texts_are_counted(list: Seq<StatementModel>, n: nat)
    requires
        n <= list.len(),
    ensures
        number_texts_before(list, n).len() == numbers_before(list, n),
    decreases n,
{
    if n > 0 {
        number_texts_are_counted(list, (n - 1) as nat);
    }
}

/// The texts that have to be read as numbers, in the order of the file.
pub fn number_texts(statements: &Vec<ObjStatement>) -> (r: Vec<String>)
    ensures
        views(r@) == number_texts_before(models(statements@), statements@.len()),
{
    let ghost list = models(statements@);
    let mut out: Vec<String> = Vec::new();
    let mut i: usize = 0;
    proof {
        assert(views(out@) =~= Seq::<Seq<char>>::empty());
    }
    while i < statements.len()
        invariant
            i <= statements@.len(),
            list == models(statements@),
            views(out@) == number_texts_before(list, i as nat),
        decreases statements@.len() - i,
    {
        let fields = &statements[i].fields;
        let wanted: usize = statements[i].tag.components();
        let n: usize = if fields.len() < wanted {
            fields.len()
        } else {
            wanted
        };
        let ghost start = views(out@);
        let mut k: usize = 0;
        proof {
            assert(start + list[i as int].fields.take(0) =~= start);
        }
        while k < n
            invariant
                k <= n <= fields@.len(),
                views(fields@) == list[i as int].fields,
                views(out@) == start + list[i as int].fields.take(k as int),
            decreases n - k,
        {
            let ghost before = out@;
            out.push(fields[k].clone());
            proof {
                assert(views(out@) =~= views(before).push(fields@[k as int]@));
                assert(views(out@) =~= start + list[i as int].fields.take(k + 1));
            }
            k = k + 1;
        }
        i = i + 1;
    }
    out
}

/// The error on a line over a word.
pub open spec fn error(kind: ObjErrorKind, line_no: int, text: Seq<char>) -> ErrorModel {
    ErrorModel { kind, line_no, text }
}

/// The `i`-th component of a statement whose numbers start at `at`.
pub open spec fn component(s: StatementModel, numbers: Seq<ObjNumber>, at: int, i: int) -> Result<
    Single,
    ErrorModel,
> {
    if i >= s.fields.len() {
        Err(error(ObjErrorKind::MissingComponent(s.tag), s.line_no, Seq::empty()))
    } else {
        match numbers[at + i] {
            ObjNumber::Finite(x) => Ok(x),
            ObjNumber::NotFinite => Err(
                error(ObjErrorKind::NonFiniteFloat, s.line_no, s.fields[i]),
            ),
            ObjNumber::Malformed => Err(error(ObjErrorKind::ParseFloat, s.line_no, s.fields[i])),
        }
    }
}

/// The three components of a statement; the first one that is wrong is reported.
pub open spec fn triple(s: StatementModel, numbers: Seq<ObjNumber>, at: int) -> Result<
    Triple,
    ErrorModel,
> {
    match component(s, numbers, at, 0) {
        Err(e) => Err(e),
        Ok(x) => match component(s, numbers, at, 1) {
            Err(e) => Err(e),
            Ok(y) => match component(s, numbers, at, 2) {
                Err(e) => Err(e),
                Ok(z) => Ok(Triple { x, y, z }),
            },
        },
    }
}

/// The two components of a statement; the first one that is wrong is reported.
pub open spec fn pair(s: StatementModel, numbers: Seq<ObjNumber>, at: int) -> Result<
    Pair,
    ErrorModel,
> {
    match component(s, numbers, at, 0) {
        Err(e) => Err(e),
        Ok(u) => match component(s, numbers, at, 1) {
            Err(e) => Err(e),
            Ok(v) => Ok(Pair { u, v }),
        },
    }
}

/// The entry that an index text means among `len` entries. Positive indices count from
/// 1, negative ones from the end.
pub open spec fn resolved_index(text: Seq<char>, len: nat, line_no: int, label: ObjLabel) -> Result<
    nat,
    ErrorModel,
> {
    match integer_value(text) {
        Some(v) if isize::MIN <= v <= isize::MAX => {
            if v == 0 {
                Err(error(ObjErrorKind::ZeroIndex, line_no, text))
            } else {
                let entry = if v > 0 {
                    v - 1
                } else {
                    len + v
                };
                if 0 <= entry < len {
                    Ok(entry as nat)
                } else {
                    Err(error(ObjErrorKind::IndexOutOfRange(label, len as usize), line_no, text))
                }
            }
        },
        _ => Err(error(ObjErrorKind::ParseIndex(label), line_no, text)),
    }
}

/// An index that may be left out.
pub open spec fn optional_index(
    fields: Seq<Seq<char>>,
    i: int,
    len: nat,
    line_no: int,
    label: ObjLabel,
) -> Result<Option<usize>, ErrorModel> {
    if i < fields.len() && fields[i].len() > 0 {
        match resolved_index(fields[i], len, line_no, label) {
            Ok(entry) => Ok(Some(entry as usize)),
            Err(e) => Err(e),
        }
    } else {
        Ok(None)
    }
}

/// The corner that a word like `3/1/2` means in a mesh with the given numbers of
/// positions, texture coordinates and normals.
pub open spec fn corner(
    text: Seq<char>,
    positions: nat,
    texcoords: nat,
    normals: nat,
    line_no: int,
) -> Result<ObjRef, ErrorModel> {
    let fields = split(text, '/');
    if fields[0].len() == 0 || fields.len() > 3 {
        Err(error(ObjErrorKind::InvalidFaceVertex, line_no, text))
    } else {
        match resolved_index(fields[0], positions, line_no, ObjLabel::Position) {
            Err(e) => Err(e),
            Ok(position) => match optional_index(
                fields,
                1,
                texcoords,
                line_no,
                ObjLabel::TexCoord,
            ) {
                Err(e) => Err(e),
                Ok(texcoord) => match optional_index(
                    fields,
                    2,
                    normals,
                    line_no,
                    ObjLabel::Normal,
                ) {
                    Err(e) => Err(e),
                    Ok(normal) => Ok(ObjRef { position: position as usize, texcoord, normal }),
                },
            },
        }
    }
}

/// The corners that the first `n` words of a face mean; the first one that is wrong is
/// reported.
pub open spec fn corners(s: StatementModel, m: MeshModel, n: nat) -> Result<
    Seq<ObjRef>,
    ErrorModel,
>
    decreases n,
{
    if n == 0 {
        Ok(Seq::empty())
    } else {
        match corners(s, m, (n - 1) as nat) {
            Err(e) => Err(e),
            Ok(before) => match corner(
                s.fields[n - 1],
                m.positions.len(),
                m.texcoords.len(),
                m.normals.len(),
                s.line_no,
            ) {
                Err(e) => Err(e),
                Ok(c) => Ok(before.push(c)),
            },
        }
    }
}

/// A polygon as a fan of triangles around its first corner.
pub open spec fn fan(polygon: Seq<ObjRef>) -> Seq<ObjRef> {
    Seq::new(
        (3 * (polygon.len() - 2)) as nat,
        |k: int|
            if k % 3 == 0 {
                polygon[0]
            } else {
                polygon[k / 3 + k % 3]
            },
    )
}

/// The mesh after one more statement, whose numbers start at `at`.
pub open spec fn apply(m: MeshModel, s: StatementModel, numbers: Seq<ObjNumber>, at: int) -> Result<
    MeshModel,
    ErrorModel,
> {
    match s.tag {
        ObjTag::Position => match triple(s, numbers, at) {
            Err(e) => Err(e),
            Ok(p) => Ok(MeshModel { positions: m.positions.push(p), ..m }),
        },
        ObjTag::TexCoord => match pair(s, numbers, at) {
            Err(e) => Err(e),
            Ok(t) => Ok(MeshModel { texcoords: m.texcoords.push(t), ..m }),
        },
        ObjTag::Normal => match triple(s, numbers, at) {
            Err(e) => Err(e),
            Ok(n) => Ok(MeshModel { normals: m.normals.push(n), ..m }),
        },
        ObjTag::Face => match corners(s, m, s.fields.len()) {
            Err(e) => Err(e),
            Ok(polygon) => if polygon.len() < 3 {
                Err(error(ObjErrorKind::ShortFace, s.line_no, Seq::empty()))
            } else {
                Ok(MeshModel { corners: m.corners + fan(polygon), ..m })
            },
        },
    }
}

/// The mesh that the first `n` statements describe, or the first thing that is wrong
/// with them.
pub open spec fn mesh_after(
    list: Seq<StatementModel>,
    numbers: Seq<ObjNumber>,
    n: nat,
) -> Result<MeshModel, ErrorModel>
    decreases n,
{
    if n == 0 {
        Ok(
            MeshModel {
                positions: Seq::empty(),
                texcoords: Seq::empty(),
                normals: Seq::empty(),
                corners: Seq::empty(),
            },
        )
    } else {
        match mesh_after(list, numbers, (n - 1) as nat) {
            Err(e) => Err(e),
            Ok(m) => apply(m, list[n - 1], numbers, numbers_before(list, (n - 1) as nat) as int),
        }
    }
}

/// The mesh that a list of statements describes. A mesh without faces is refused.
pub open spec fn mesh_of(list: Seq<StatementModel>, numbers: Seq<ObjNumber>) -> Result<
    MeshModel,
    ErrorModel,
> {
    match mesh_after(list, numbers, list.len()) {
        Err(e) => Err(e),
        Ok(m) => if m.corners.len() == 0 {
            Err(error(ObjErrorKind::NoFaces, 0, Seq::empty()))
        } else {
            Ok(m)
        },
    }
}

/// An error without a word.
fn bare_error(kind: ObjErrorKind, line_no: usize) -> (r: ObjError)
    ensures
        r@ == error(kind, line_no as int, Seq::empty()),
{
    ObjError { kind, line_no, text: String::new() }
}

/// The `i`-th component of a statement.
fn parse_f32(s: &ObjStatement, numbers: &Vec<ObjNumber>, at: usize, i: usize) -> (r: Result<
    Single,
    ObjError,
>)
    requires
        i < s@.tag.arity(),
        at + number_count(s@) <= numbers@.len(),
    ensures
        match r {
            Ok(x) => component(s@, numbers@, at as int, i as int) == Ok::<Single, ErrorModel>(x),
            Err(e) => component(s@, numbers@, at as int, i as int) == Err::<Single, ErrorModel>(
                e@,
            ),
        },
{
    if i >= s.fields.len() {
        return Err(bare_error(ObjErrorKind::MissingComponent(s.tag), s.line_no));
    }
    assert(at + i < numbers.len());
    match numbers[at + i] {
        ObjNumber::Finite(x) => Ok(x),
        ObjNumber::NotFinite => Err(
            ObjError {
                kind: ObjErrorKind::NonFiniteFloat,
                line_no: s.line_no,
                text: s.fields[i].clone(),
            },
        ),
        ObjNumber::Malformed => Err(
            ObjError {
                kind: ObjErrorKind::ParseFloat,
                line_no: s.line_no,
                text: s.fields[i].clone(),
            },
        ),
    }
}

/// The three components of a statement.
fn parse_vec3(s: &ObjStatement, numbers: &Vec<ObjNumber>, at: usize) -> (r: Result<
    Triple,
    ObjError,
>)
    requires
        s@.tag.arity() == 3,
        at + number_count(s@) <= numbers@.len(),
    ensures
        match r {
            Ok(v) => triple(s@, numbers@, at as int) == Ok::<Triple, ErrorModel>(v),
            Err(e) => triple(s@, numbers@, at as int) == Err::<Triple, ErrorModel>(e@),
        },
{
    let x = match parse_f32(s, numbers, at, 0) {
        Ok(x) => x,
        Err(e) => return Err(e),
    };
    let y = match parse_f32(s, numbers, at, 1) {
        Ok(y) => y,
        Err(e) => return Err(e),
    };
    let z = match parse_f32(s, numbers, at, 2) {
        Ok(z) => z,
        Err(e) => return Err(e),
    };
    Ok(Triple { x, y, z })
}

/// The two components of a statement.
fn parse_vec2(s: &ObjStatement, numbers: &Vec<ObjNumber>, at: usize) -> (r: Result<
    Pair,
    ObjError,
>)
    requires
        s@.tag.arity() == 2,
        at + number_count(s@) <= numbers@.len(),
    ensures
        match r {
            Ok(v) => pair(s@, numbers@, at as int) == Ok::<Pair, ErrorModel>(v),
            Err(e) => pair(s@, numbers@, at as int) == Err::<Pair, ErrorModel>(e@),
        },
{
    let u = match parse_f32(s, numbers, at, 0) {
        Ok(u) => u,
        Err(e) => return Err(e),
    };
    let v = match parse_f32(s, numbers, at, 1) {
        Ok(v) => v,
        Err(e) => return Err(e),
    };
    Ok(Pair { u, v })
}

/// The entry that an index text means among `len` entries.
pub fn resolve_obj_index(text: &str, len: usize, line_no: usize, label: ObjLabel) -> (r: Result<
    usize,
    ObjError,
>)
    ensures
        match r {
            Ok(entry) => resolved_index(text@, len as nat, line_no as int, label) == Ok::<
                nat,
                ErrorModel,
            >(entry as nat),
            Err(e) => resolved_index(text@, len as nat, line_no as int, label) == Err::<
                nat,
                ErrorModel,
            >(e@),
        },
{
    let word = text_of(&chars_of(text));
    match parse_isize(text) {
        None => Err(ObjError { kind: ObjErrorKind::ParseIndex(label), line_no, text: word }),
        Some(index) => {
            if index == 0 {
                Err(ObjError { kind: ObjErrorKind::ZeroIndex, line_no, text: word })
            } else if index > 0 {
                let entry: usize = (index - 1) as usize;
                if entry < len {
                    Ok(entry)
                } else {
                    Err(
                        ObjError {
                            kind: ObjErrorKind::IndexOutOfRange(label, len),
                            line_no,
                            text: word,
                        },
                    )
                }
            } else {
                let back: usize = (-(index + 1)) as usize + 1;
                if back <= len {
                    Ok(len - back)
                } else {
                    Err(
                        ObjError {
                            kind: ObjErrorKind::IndexOutOfRange(label, len),
                            line_no,
                            text: word,
                        },
                    )
                }
            }
        },
    }
}

/// An index that may be left out.
fn resolve_optional_index(
    fields: &Vec<Vec<char>>,
    i: usize,
    len: usize,
    line_no: usize,
    label: ObjLabel,
    Ghost(list): Ghost<Seq<Seq<char>>>,
) -> (r: Result<Option<usize>, ObjError>)
    requires
        fields@.len() == list.len(),
        forall|k: int| 0 <= k < fields@.len() ==> (#[trigger] fields@[k])@ == list[k],
    ensures
        match r {
            Ok(entry) => optional_index(list, i as int, len as nat, line_no as int, label) == Ok::<
                Option<usize>,
                ErrorModel,
            >(entry),
            Err(e) => optional_index(list, i as int, len as nat, line_no as int, label) == Err::<
                Option<usize>,
                ErrorModel,
            >(e@),
        },
{
    if i < fields.len() && fields[i].len() > 0 {
        let word = text_of(&fields[i]);
        match resolve_obj_index(word.as_str(), len, line_no, label) {
            Ok(entry) => Ok(Some(entry)),
            Err(e) => Err(e),
        }
    } else {
        Ok(None)
    }
}

/// The corner that a word like `3/1/2` means.
pub fn parse_obj_ref(
    text: &str,
    position_count: usize,
    texcoord_count: usize,
    normal_count: usize,
    line_no: usize,
) -> (r: Result<ObjRef, ObjError>)
    ensures
        match r {
            Ok(c) => corner(
                text@,
                position_count as nat,
                texcoord_count as nat,
                normal_count as nat,
                line_no as int,
            ) == Ok::<ObjRef, ErrorModel>(c),
            Err(e) => corner(
                text@,
                position_count as nat,
                texcoord_count as nat,
                normal_count as nat,
                line_no as int,
            ) == Err::<ObjRef, ErrorModel>(e@),
        },
{
    let chars = chars_of(text);
    let fields = split_chars(&chars, '/');
    let ghost list = split(text@, '/');
    proof {
        cut_is_not_empty(text@, |c: char| c == '/');
    }
    if fields[0].len() == 0 || fields.len() > 3 {
        return Err(
            ObjError { kind: ObjErrorKind::InvalidFaceVertex, line_no, text: text_of(&chars) },
        );
    }
    let first = text_of(&fields[0]);
    let position: usize = match resolve_obj_index(
        first.as_str(),
        position_count,
        line_no,
        ObjLabel::Position,
    ) {
        Ok(entry) => entry,
        Err(e) => return Err(e),
    };
    let texcoord: Option<usize> = match resolve_optional_index(
        &fields,
        1,
        texcoord_count,
        line_no,
        ObjLabel::TexCoord,
        Ghost(list),
    ) {
        Ok(entry) => entry,
        Err(e) => return Err(e),
    };
    let normal: Option<usize> = match resolve_optional_index(
        &fields,
        2,
        normal_count,
        line_no,
        ObjLabel::Normal,
        Ghost(list),
    ) {
        Ok(entry) => entry,
        Err(e) => return Err(e),
    };
    Ok(ObjRef { position, texcoord, normal })
}

impl ObjRef {
    /// Whether the corner points at entries that exist.
    pub open spec fn within(self, positions: nat, texcoords: nat, normals: nat) -> bool {
        &&& self.position < positions
        &&& self.texcoord matches Some(t) ==> t < texcoords
        &&& self.normal matches Some(n) ==> n < normals
    }
}

impl MeshModel {
    /// Whole triangles whose corners point at entries that exist.
    pub open spec fn wf(self) -> bool {
        &&& self.corners.len() % 3 == 0
        &&& forall|k: int|
            0 <= k < self.corners.len() ==> (#[trigger] self.corners[k]).within(
                self.positions.len(),
                self.texcoords.len(),
                self.normals.len(),
            )
    }
}

/// The corners of a face point at entries that exist.
pub proof fn corners_exist(s: StatementModel, m: MeshModel, n: nat)
    requires
        m.positions.len() <= usize::MAX,
        m.texcoords.len() <= usize::MAX,
        m.normals.len() <= usize::MAX,
    ensures
        corners(s, m, n) matches Ok(list) ==> list.len() == n && forall|k: int|
            0 <= k < n ==> (#[trigger] list[k]).within(
                m.positions.len(),
                m.texcoords.len(),
                m.normals.len(),
            ),
    decreases n,
{
    if n > 0 {
        corners_exist(s, m, (n - 1) as nat);
    }
}

/// Every statement keeps a mesh well formed.
pub proof fn apply_keeps_wf(m: MeshModel, s: StatementModel, numbers: Seq<ObjNumber>, at: int)
    requires
        m.wf(),
        m.positions.len() <= usize::MAX,
        m.texcoords.len() <= usize::MAX,
        m.normals.len() <= usize::MAX,
    ensures
        apply(m, s, numbers, at) matches Ok(next) ==> next.wf(),
{
    corners_exist(s, m, s.fields.len());
    if s.tag == ObjTag::Face && apply(m, s, numbers, at) is Ok {
        let polygon = corners(s, m, s.fields.len())->Ok_0;
        let next = apply(m, s, numbers, at)->Ok_0;
        assert forall|k: int| 0 <= k < next.corners.len() implies (
        #[trigger] next.corners[k]).within(
            m.positions.len(),
            m.texcoords.len(),
            m.normals.len(),
        ) by {
            if k >= m.corners.len() {
                let j = k - m.corners.len();
                assert(next.corners[k] == fan(polygon)[j]);
                assert(j / 3 + j % 3 < polygon.len());
                if j % 3 == 0 {
                    assert(next.corners[k] == polygon[0]);
                } else {
                    assert(next.corners[k] == polygon[j / 3 + j % 3]);
                }
            }
        }
    }
}

/// Adds the triangles of a polygon to a list of corners.
fn append_fan(out: &mut Vec<ObjRef>, polygon: &Vec<ObjRef>)
    requires
        polygon@.len() >= 3,
    ensures
        final(out)@ == old(out)@ + fan(polygon@),
{
    let n: usize = polygon.len();
    let ghost start = out@;
    let mut i: usize = 1;
    proof {
        assert(start + fan(polygon@).take(0) =~= start);
    }
    while i < n - 1
        invariant
            1 <= i <= n - 1,
            n == polygon@.len(),
            n >= 3,
            out@ == start + fan(polygon@).take(3 * (i - 1)),
        decreases n - i,
    {
        out.push(polygon[0]);
        out.push(polygon[i]);
        out.push(polygon[i + 1]);
        proof {
            let f = fan(polygon@);
            let k = 3 * (i - 1);
            assert(k % 3 == 0 && (k + 1) % 3 == 1 && (k + 2) % 3 == 2);
            assert((k + 1) / 3 == i - 1 && (k + 2) / 3 == i - 1);
            assert(f[k] == polygon@[0]);
            assert(f[k + 1] == polygon@[i as int]);
            assert(f[k + 2] == polygon@[i + 1]);
            assert(f.take(k + 3) =~= f.take(k).push(f[k]).push(f[k + 1]).push(f[k + 2]));
            assert(start + f.take(k + 3) =~= (start + f.take(k)).push(f[k]).push(f[k + 1]).push(
                f[k + 2],
            ));
        }
        i = i + 1;
    }
    proof {
        assert(fan(polygon@).take(3 * (n - 2)) =~= fan(polygon@));
    }
}

/// The corners that the words of a face mean.
fn parse_face(s: &ObjStatement, mesh: &ObjMesh) -> (r: Result<Vec<ObjRef>, ObjError>)
    ensures
        match r {
            Ok(list) => corners(s@, mesh@, s@.fields.len()) == Ok::<Seq<ObjRef>, ErrorModel>(
                list@,
            ),
            Err(e) => corners(s@, mesh@, s@.fields.len()) == Err::<Seq<ObjRef>, ErrorModel>(e@),
        },
{
    let mut out: Vec<ObjRef> = Vec::new();
    let mut i: usize = 0;
    while i < s.fields.len()
        invariant
            i <= s.fields@.len(),
            corners(s@, mesh@, i as nat) == Ok::<Seq<ObjRef>, ErrorModel>(out@),
        decreases s.fields@.len() - i,
    {
        match parse_obj_ref(
            s.fields[i].as_str(),
            mesh.positions.len(),
            mesh.texcoords.len(),
            mesh.normals.len(),
            s.line_no,
        ) {
            Ok(c) => out.push(c),
            Err(e) => {
                proof {
                    assert(corners(s@, mesh@, (i + 1) as nat) == Err::<Seq<ObjRef>, ErrorModel>(
                        e@,
                    ));
                    corners_keep_error(s@, mesh@, (i + 1) as nat, s@.fields.len());
                }
                return Err(e);
            },
        }
        i = i + 1;
    }
    Ok(out)
}

/// Further words do not change which one is reported first.
proof fn corners_keep_error(s: StatementModel, m: MeshModel, i: nat, n: nat)
    requires
        i <= n,
        corners(s, m, i) is Err,
    ensures
        corners(s, m, n) == corners(s, m, i),
    decreases n,
{
    if i < n {
        corners_keep_error(s, m, i, (n - 1) as nat);
    }
}

/// Further statements do not change what is reported first.
proof fn mesh_keeps_error(list: Seq<StatementModel>, numbers: Seq<ObjNumber>, i: nat, n: nat)
    requires
        i <= n,
        mesh_after(list, numbers, i) is Err,
    ensures
        mesh_after(list, numbers, n) == mesh_after(list, numbers, i),
    decreases n,
{
    if i < n {
        mesh_keeps_error(list, numbers, i, (n - 1) as nat);
    }
}

/// The counts of numbers only grow.
proof fn numbers_before_grows(list: Seq<StatementModel>, m: nat, n: nat)
    requires
        m <= n,
    ensures
        numbers_before(list, m) <= numbers_before(list, n),
    decreases n,
{
    if m < n {
        numbers_before_grows(list, m, (n - 1) as nat);
    }
}

/// The mesh after one more statement.
fn apply_statement(
    mesh: &mut ObjMesh,
    s: &ObjStatement,
    numbers: &Vec<ObjNumber>,
    at: usize,
) -> (r: Option<ObjError>)
    requires
        at + number_count(s@) <= numbers@.len(),
    ensures
        match r {
            None => apply(old(mesh)@, s@, numbers@, at as int) == Ok::<MeshModel, ErrorModel>(
                final(mesh)@,
            ),
            Some(e) => apply(old(mesh)@, s@, numbers@, at as int) == Err::<MeshModel, ErrorModel>(
                e@,
            ),
        },
{
    match s.tag {
        ObjTag::Position => match parse_vec3(s, numbers, at) {
            Ok(p) => {
                mesh.positions.push(p);
                None
            },
            Err(e) => Some(e),
        },
        ObjTag::TexCoord => match parse_vec2(s, numbers, at) {
            Ok(t) => {
                mesh.texcoords.push(t);
                None
            },
            Err(e) => Some(e),
        },
        ObjTag::Normal => match parse_vec3(s, numbers, at) {
            Ok(n) => {
                mesh.normals.push(n);
                None
            },
            Err(e) => Some(e),
        },
        ObjTag::Face => match parse_face(s, mesh) {
            Ok(polygon) => if polygon.len() < 3 {
                Some(bare_error(ObjErrorKind::ShortFace, s.line_no))
            } else {
                append_fan(&mut mesh.corners, &polygon);
                None
            },
            Err(e) => Some(e),
        },
    }
}

/// The mesh that a list of statements describes, given what its number texts turned out
/// to be.
pub fn read_obj(statements: &Vec<ObjStatement>, numbers: &Vec<ObjNumber>) -> (r: Result<
    ObjMesh,
    ObjError,
>)
    requires
        numbers@.len() == numbers_before(models(statements@), statements@.len()),
    ensures
        match r {
            Ok(mesh) => mesh@.wf() && mesh_of(models(statements@), numbers@) == Ok::<
                MeshModel,
                ErrorModel,
            >(mesh@),
            Err(e) => mesh_of(models(statements@), numbers@) == Err::<MeshModel, ErrorModel>(e@),
        },
{
    let ghost list = models(statements@);
    let mut mesh = ObjMesh {
        positions: Vec::new(),
        texcoords: Vec::new(),
        normals: Vec::new(),
        corners: Vec::new(),
    };
    let mut at: usize = 0;
    let mut i: usize = 0;
    while i < statements.len()
        invariant
            i <= statements@.len(),
            list == models(statements@),
            numbers.len() == numbers_before(list, list.len()),
            at == numbers_before(list, i as nat),
            mesh@.wf(),
            mesh_after(list, numbers@, i as nat) == Ok::<MeshModel, ErrorModel>(mesh@),
        decreases statements@.len() - i,
    {
        let s = &statements[i];
        proof {
            assert(list[i as int] == s@);
            numbers_before_grows(list, (i + 1) as nat, list.len());
            assert(mesh.positions.len() == mesh@.positions.len());
            assert(mesh.texcoords.len() == mesh@.texcoords.len());
            assert(mesh.normals.len() == mesh@.normals.len());
            apply_keeps_wf(mesh@, s@, numbers@, at as int);
        }
        match apply_statement(&mut mesh, s, numbers, at) {
            Some(e) => {
                proof {
                    assert(mesh_after(list, numbers@, (i + 1) as nat) == Err::<
                        MeshModel,
                        ErrorModel,
                    >(e@));
                    mesh_keeps_error(list, numbers@, (i + 1) as nat, list.len());
                }
                return Err(e);
            },
            None => {},
        }
        let wanted: usize = s.tag.components();
        at = at + if s.fields.len() < wanted {
            s.fields.len()
        } else {
            wanted
        };
        i = i + 1;
    }
    if mesh.corners.len() == 0 {
        Err(bare_error(ObjErrorKind::NoFaces, 0))
    } else {
        Ok(mesh)
    }
}

/// Where the normal of a corner comes from: the file, or the plane of its triangle.
#[derive(Clone, Copy, Debug, PartialEq, Eq, Structural)]
pub enum NormalSource {
    Authored(Triple),
    Plane(Triple, Triple, Triple),
}

/// A corner of a triangle with the numbers it refers to.
#[derive(Clone, Copy, Debug, PartialEq, Eq, Structural)]
pub struct FaceVertex {
    pub position: Triple,
    pub texcoord: Pair,
    pub normal: NormalSource,
}

impl MeshModel {
    /// The `k`-th corner with the numbers it refers to. Without a texture coordinate it
    /// lies at the origin; without a normal it takes the one of its triangle.
    pub open spec fn vertex(self, k: int) -> FaceVertex {
        let c = self.corners[k];
        let first = k - k % 3;
        FaceVertex {
            position: self.positions[c.position as int],
            texcoord: match c.texcoord {
                Some(t) => self.texcoords[t as int],
                None => Pair { u: Single { bits: 0 }, v: Single { bits: 0 } },
            },
            normal: match c.normal {
                Some(n) => NormalSource::Authored(self.normals[n as int]),
                None => NormalSource::Plane(
                    self.positions[self.corners[first].position as int],
                    self.positions[self.corners[first + 1].position as int],
                    self.positions[self.corners[first + 2].position as int],
                ),
            },
        }
    }
}

impl ObjMesh {
    /// The numbers of vertices and triangles that the mesh is written with.
    pub fn summary(&self) -> (r: ObjConversionSummary)
        ensures
            r.vertices == self@.corners.len(),
            r.triangles == self@.corners.len() / 3,
    {
        ObjConversionSummary { vertices: self.corners.len(), triangles: self.corners.len() / 3 }
    }

    /// Adds the three corners of a triangle, with the numbers they refer to.
    fn append_triangle(&self, first: usize, out: &mut Vec<FaceVertex>)
        requires
            self@.wf(),
            first % 3 == 0,
            first + 3 <= self.corners.len(),
        ensures
            final(out)@ == old(out)@.push(self@.vertex(first as int)).push(
                self@.vertex(first + 1),
            ).push(self@.vertex(first + 2)),
    {
        let p0 = self.positions[self.corners[first].position];
        let p1 = self.positions[self.corners[first + 1].position];
        let p2 = self.positions[self.corners[first + 2].position];
        let ghost start = out@;
        let mut k: usize = 0;
        while k < 3
            invariant
                k <= 3,
                self@.wf(),
                first % 3 == 0,
                first + 3 <= self.corners.len(),
                p0 == self.positions@[self.corners@[first as int].position as int],
                p1 == self.positions@[self.corners@[first + 1].position as int],
                p2 == self.positions@[self.corners@[first + 2].position as int],
                out@ == start + Seq::new(k as nat, |j: int| self@.vertex(first + j)),
            decreases 3 - k,
        {
            let c = self.corners[first + k];
            assert(c == self@.corners[first + k]);
            assert((first + k) - (first + k) as int % 3 == first);
            let texcoord = match c.texcoord {
                Some(t) => self.texcoords[t],
                None => Pair { u: Single { bits: 0 }, v: Single { bits: 0 } },
            };
            let normal = match c.normal {
                Some(n) => NormalSource::Authored(self.normals[n]),
                None => NormalSource::Plane(p0, p1, p2),
            };
            out.push(FaceVertex { position: self.positions[c.position], texcoord, normal });
            proof {
                assert(out@ =~= start + Seq::new((k + 1) as nat, |j: int| self@.vertex(first + j)));
            }
            k = k + 1;
        }
        proof {
            assert(out@ =~= start.push(self@.vertex(first as int)).push(
                self@.vertex(first + 1),
            ).push(self@.vertex(first + 2)));
        }
    }

    /// All corners, triangle after triangle, with the numbers they refer to.
    pub fn face_vertices(&self) -> (r: Vec<FaceVertex>)
        requires
            self@.wf(),
        ensures
            r@ == Seq::new(self@.corners.len(), |k: int| self@.vertex(k)),
    {
        let mut out: Vec<FaceVertex> = Vec::new();
        let mut i: usize = 0;
        while i < self.corners.len()
            invariant
                i <= self.corners@.len(),
                i % 3 == 0,
                self@.wf(),
                out@ == Seq::new(i as nat, |k: int| self@.vertex(k)),
            decreases self.corners@.len() - i,
        {
            self.append_triangle(i, &mut out);
            i = i + 3;
            proof {
                assert(out@ =~= Seq::new(i as nat, |k: int| self@.vertex(k)));
            }
        }
        out
    }
}

/// A face with `n` corners becomes `n - 2` triangles, each of which starts at the first
/// corner and runs along one edge that does not touch it.
pub proof fn face_becomes_triangles(polygon: Seq<ObjRef>, t: int)
    requires
        polygon.len() >= 3,
        0 <= t < polygon.len() - 2,
    ensures
        fan(polygon).len() == 3 * (polygon.len() - 2),
        fan(polygon)[3 * t] == polygon[0],
        fan(polygon)[3 * t + 1] == polygon[t + 1],
        fan(polygon)[3 * t + 2] == polygon[t + 2],
{
    assert((3 * t) % 3 == 0 && (3 * t + 1) % 3 == 1 && (3 * t + 2) % 3 == 2);
    assert((3 * t + 1) / 3 == t && (3 * t + 2) / 3 == t);
}

/// A mesh that was read has exactly three vertices for each triangle, and at least one
/// triangle.
pub proof fn three_vertices_for_each_triangle(
    list: Seq<StatementModel>,
    numbers: Seq<ObjNumber>,
    n: nat,
)
    ensures
        mesh_after(list, numbers, n) matches Ok(m) ==> m.corners.len() % 3 == 0,
        mesh_of(list, numbers) matches Ok(m) ==> m.corners.len() == 3 * (m.corners.len() / 3)
            && m.corners.len() / 3 > 0,
    decreases n,
{
    whole_triangles(list, numbers, n);
    whole_triangles(list, numbers, list.len());
}

/// The corners always come in threes.
proof fn whole_triangles(list: Seq<StatementModel>, numbers: Seq<ObjNumber>, n: nat)
    ensures
        mesh_after(list, numbers, n) matches Ok(m) ==> m.corners.len() % 3 == 0,
    decreases n,
{
    if n > 0 {
        whole_triangles(list, numbers, (n - 1) as nat);
    }
}

/// How many of the first `n` statements are of a kind.
pub open spec fn count_of(list: Seq<StatementModel>, tag: ObjTag, n: nat) -> nat
    decreases n,
{
    if n == 0 {
        0
    } else {
        count_of(list, tag, (n - 1) as nat) + if list[n - 1].tag == tag {
            1nat
        } else {
            0
        }
    }
}

/// How many triangles the faces among the first `n` statements make: two fewer than corners.
pub open spec fn triangles_before(list: Seq<StatementModel>, n: nat) -> int
    decreases n,
{
    if n == 0 {
        0
    } else {
        triangles_before(list, (n - 1) as nat) + if list[n - 1].tag == ObjTag::Face {
            list[n - 1].fields.len() - 2
        } else {
            0
        }
    }
}

/// The statements that were read leave their traces, and those stay: the lists of a mesh are
/// as long as there are statements for them, and never lose an entry.
#[verifier::spinoff_prover]
#[verifier::rlimit(40)]
proof fn lists_grow(list: Seq<StatementModel>, numbers: Seq<ObjNumber>, i: nat, n: nat)
    requires
        i <= n <= list.len(),
    ensures
        mesh_after(list, numbers, n) matches Ok(m) ==> {
            &&& m.positions.len() == count_of(list, ObjTag::Position, n)
            &&& m.texcoords.len() == count_of(list, ObjTag::TexCoord, n)
            &&& m.normals.len() == count_of(list, ObjTag::Normal, n)
            &&& m.corners.len() == 3 * triangles_before(list, n)
            &&& mesh_after(list, numbers, i) matches Ok(b) && {
                &&& b.positions.is_prefix_of(m.positions)
                &&& b.texcoords.is_prefix_of(m.texcoords)
                &&& b.normals.is_prefix_of(m.normals)
                &&& b.corners.is_prefix_of(m.corners)
            }
        },
    decreases n,
{
    if n > 0 {
        let k = (n - 1) as nat;
        lists_grow(
            list,
            numbers,
            if i < n {
                i
            } else {
                k
            },
            k,
        );
        if mesh_after(list, numbers, n) is Ok {
            let m = mesh_after(list, numbers, n)->Ok_0;
            let c = mesh_after(list, numbers, k)->Ok_0;
            let s = list[n - 1];
            if s.tag == ObjTag::Face {
                corners_are_counted(s, c, s.fields.len());
                assert(c.corners.is_prefix_of(m.corners));
            }
            assert(c.positions.is_prefix_of(m.positions));
            assert(c.texcoords.is_prefix_of(m.texcoords));
            assert(c.normals.is_prefix_of(m.normals));
            if i < n {
                let b = mesh_after(list, numbers, i)->Ok_0;
                assert(b.positions =~= m.positions.take(b.positions.len() as int));
                assert(b.texcoords =~= m.texcoords.take(b.texcoords.len() as int));
                assert(b.normals =~= m.normals.take(b.normals.len() as int));
                assert(b.corners =~= m.corners.take(b.corners.len() as int));
            } else {
                assert(m.positions.take(m.positions.len() as int) =~= m.positions);
                assert(m.texcoords.take(m.texcoords.len() as int) =~= m.texcoords);
                assert(m.normals.take(m.normals.len() as int) =~= m.normals);
                assert(m.corners.take(m.corners.len() as int) =~= m.corners);
            }
        }
    }
}

/// A face has a corner for each word, and each is what its word means.
proof fn corners_are_counted(s: StatementModel, m: MeshModel, n: nat)
    ensures
        corners(s, m, n) matches Ok(list) ==> list.len() == n && forall|j: int|
            0 <= j < n ==> corner(
                s.fields[j],
                m.positions.len(),
                m.texcoords.len(),
                m.normals.len(),
                s.line_no,
            ) == Ok::<ObjRef, ErrorModel>(#[trigger] list[j]),
    decreases n,
{
    if n > 0 {
        corners_are_counted(s, m, (n - 1) as nat);
    }
}

/// Whether a number of a statement turned out to be `x`: the one for its `c`-th word.
pub open spec fn is_number_of(
    list: Seq<StatementModel>,
    numbers: Seq<ObjNumber>,
    i: int,
    c: int,
    x: Single,
) -> bool {
    let at = numbers_before(list, i as nat) + c;
    &&& c < list[i].fields.len()
    &&& number_texts_before(list, list.len())[at] == list[i].fields[c]
    &&& numbers[at] == ObjNumber::Finite(x)
}

/// The numbers of a statement are those for its first words, in order.
proof fn words_are_listed_in_order(list: Seq<StatementModel>, i: int, c: int, n: nat)
    requires
        0 <= i < n <= list.len(),
        0 <= c < number_count(list[i]),
    ensures
        numbers_before(list, i as nat) + c < number_texts_before(list, n).len(),
        number_texts_before(list, n)[numbers_before(list, i as nat) + c] == list[i].fields[c],
    decreases n,
{
    number_texts_are_counted(list, (n - 1) as nat);
    number_texts_are_counted(list, i as nat);
    if i < n - 1 {
        words_are_listed_in_order(list, i, c, (n - 1) as nat);
    }
}

/// In a mesh that was read, the `k`-th texture coordinate is what the `k`-th `vt` statement
/// says: the first word is its `u` and the second its `v`. In the same way the three words of
/// a `v` or `vn` statement are the `x`, `y` and `z` of a position or a normal. There are no
/// other positions, texture coordinates and normals.
#[verifier::spinoff_prover]
#[verifier::rlimit(40)]
pub proof fn coordinates_are_those_of_the_file(
    list: Seq<StatementModel>,
    numbers: Seq<ObjNumber>,
    i: int,
)
    requires
        0 <= i < list.len(),
    ensures
        mesh_of(list, numbers) matches Ok(m) ==> {
            let k = count_of(list, list[i].tag, i as nat) as int;
            &&& m.positions.len() == count_of(list, ObjTag::Position, list.len())
            &&& m.texcoords.len() == count_of(list, ObjTag::TexCoord, list.len())
            &&& m.normals.len() == count_of(list, ObjTag::Normal, list.len())
            &&& list[i].tag == ObjTag::Position ==> {
                &&& k < m.positions.len()
                &&& is_number_of(list, numbers, i, 0, m.positions[k].x)
                &&& is_number_of(list, numbers, i, 1, m.positions[k].y)
                &&& is_number_of(list, numbers, i, 2, m.positions[k].z)
            }
            &&& list[i].tag == ObjTag::TexCoord ==> {
                &&& k < m.texcoords.len()
                &&& is_number_of(list, numbers, i, 0, m.texcoords[k].u)
                &&& is_number_of(list, numbers, i, 1, m.texcoords[k].v)
            }
            &&& list[i].tag == ObjTag::Normal ==> {
                &&& k < m.normals.len()
                &&& is_number_of(list, numbers, i, 0, m.normals[k].x)
                &&& is_number_of(list, numbers, i, 1, m.normals[k].y)
                &&& is_number_of(list, numbers, i, 2, m.normals[k].z)
            }
        },
{
    if mesh_of(list, numbers) is Ok {
        let n = list.len();
        let m = mesh_of(list, numbers)->Ok_0;
        lists_grow(list, numbers, (i + 1) as nat, n);
        lists_grow(list, numbers, i as nat, (i + 1) as nat);
        lists_grow(list, numbers, i as nat, i as nat);
        let b = mesh_after(list, numbers, i as nat)->Ok_0;
        let c = mesh_after(list, numbers, (i + 1) as nat)->Ok_0;
        if list[i].tag != ObjTag::Face {
            words_are_listed_in_order(list, i, 0, n);
            words_are_listed_in_order(list, i, 1, n);
            if list[i].tag != ObjTag::TexCoord {
                words_are_listed_in_order(list, i, 2, n);
            }
        }
        if list[i].tag == ObjTag::Position {
            assert(c.positions.last() == m.positions[b.positions.len() as int]);
        }
        if list[i].tag == ObjTag::TexCoord {
            assert(c.texcoords.last() == m.texcoords[b.texcoords.len() as int]);
        }
        if list[i].tag == ObjTag::Normal {
            assert(c.normals.last() == m.normals[b.normals.len() as int]);
        }
    }
}

/// Whether an index word means an entry of a list of `len` entries: counted from one, or
/// backwards from the end.
pub open spec fn means_entry(word: Seq<char>, len: nat, entry: usize) -> bool {
    integer_value(word) matches Some(v) && entry < len && (v == entry + 1 || v == entry - len)
}

/// Whether a corner is what a word says: its parts between slashes are the position, the
/// texture coordinate and the normal; the last two may be left out or empty.
pub open spec fn is_corner_for(
    word: Seq<char>,
    c: ObjRef,
    positions: nat,
    texcoords: nat,
    normals: nat,
) -> bool {
    let parts = split(word, '/');
    &&& 1 <= parts.len() <= 3
    &&& means_entry(parts[0], positions, c.position)
    &&& match c.texcoord {
        Some(t) => parts.len() > 1 && means_entry(parts[1], texcoords, t),
        None => parts.len() == 1 || parts[1].len() == 0,
    }
    &&& match c.normal {
        Some(n) => parts.len() > 2 && means_entry(parts[2], normals, n),
        None => parts.len() <= 2 || parts[2].len() == 0,
    }
}

/// A corner points at the entries that its word names.
pub proof fn words_name_their_corners(
    word: Seq<char>,
    positions: nat,
    texcoords: nat,
    normals: nat,
    line_no: int,
)
    requires
        positions <= usize::MAX,
        texcoords <= usize::MAX,
        normals <= usize::MAX,
    ensures
        corner(word, positions, texcoords, normals, line_no) matches Ok(c) ==> is_corner_for(
            word,
            c,
            positions,
            texcoords,
            normals,
        ),
{
    cut_is_not_empty(word, |c: char| c == '/');
}

/// In a mesh that was read, a face is the triangles between its first corner and each edge
/// that does not touch it, in order; every corner is what its word says, where entries count
/// backwards from those that stand above the face. Faces follow one another, and there are
/// no other triangles.
#[verifier::spinoff_prover]
#[verifier::rlimit(40)]
pub proof fn faces_are_those_of_the_file(
    list: Seq<StatementModel>,
    numbers: Seq<ObjNumber>,
    i: int,
    t: int,
)
    requires
        0 <= i < list.len() <= usize::MAX,
        list[i].tag == ObjTag::Face,
        0 <= t < list[i].fields.len() - 2,
    ensures
        mesh_of(list, numbers) matches Ok(m) ==> {
            let at = 3 * (triangles_before(list, i as nat) + t);
            let p = count_of(list, ObjTag::Position, i as nat);
            let u = count_of(list, ObjTag::TexCoord, i as nat);
            let n = count_of(list, ObjTag::Normal, i as nat);
            &&& m.corners.len() == 3 * triangles_before(list, list.len())
            &&& 0 <= at && at + 2 < m.corners.len()
            &&& is_corner_for(list[i].fields[0], m.corners[at], p, u, n)
            &&& is_corner_for(list[i].fields[t + 1], m.corners[at + 1], p, u, n)
            &&& is_corner_for(list[i].fields[t + 2], m.corners[at + 2], p, u, n)
        },
{
    if mesh_of(list, numbers) is Ok {
        let polygon = polygon_of(list, numbers, i, t);
        let s = list[i];
        let p = count_of(list, ObjTag::Position, i as nat);
        let u = count_of(list, ObjTag::TexCoord, i as nat);
        let n = count_of(list, ObjTag::Normal, i as nat);
        counts_are_small(list, ObjTag::Position, i as nat);
        counts_are_small(list, ObjTag::TexCoord, i as nat);
        counts_are_small(list, ObjTag::Normal, i as nat);
        words_name_their_corners(s.fields[0], p, u, n, s.line_no);
        words_name_their_corners(s.fields[t + 1], p, u, n, s.line_no);
        words_name_their_corners(s.fields[t + 2], p, u, n, s.line_no);
        assert(corner(s.fields[0], p, u, n, s.line_no) == Ok::<ObjRef, ErrorModel>(polygon[0]));
        assert(corner(s.fields[t + 1], p, u, n, s.line_no) == Ok::<ObjRef, ErrorModel>(
            polygon[t + 1],
        ));
        assert(corner(s.fields[t + 2], p, u, n, s.line_no) == Ok::<ObjRef, ErrorModel>(
            polygon[t + 2],
        ));
    }
}

/// The corners of a face, and where those of one of its triangles lie in the mesh.
#[verifier::spinoff_prover]
#[verifier::rlimit(40)]
proof fn polygon_of(
    list: Seq<StatementModel>,
    numbers: Seq<ObjNumber>,
    i: int,
    t: int,
) -> (polygon: Seq<ObjRef>)
    requires
        0 <= i < list.len(),
        list[i].tag == ObjTag::Face,
        0 <= t < list[i].fields.len() - 2,
        mesh_of(list, numbers) is Ok,
    ensures
        polygon.len() == list[i].fields.len(),
        forall|j: int|
            0 <= j < polygon.len() ==> corner(
                list[i].fields[j],
                count_of(list, ObjTag::Position, i as nat),
                count_of(list, ObjTag::TexCoord, i as nat),
                count_of(list, ObjTag::Normal, i as nat),
                list[i].line_no,
            ) == Ok::<ObjRef, ErrorModel>(#[trigger] polygon[j]),
        ({
            let m = mesh_of(list, numbers)->Ok_0;
            let at = 3 * (triangles_before(list, i as nat) + t);
            &&& m.corners.len() == 3 * triangles_before(list, list.len())
            &&& 0 <= at && at + 2 < m.corners.len()
            &&& m.corners[at] == polygon[0]
            &&& m.corners[at + 1] == polygon[t + 1]
            &&& m.corners[at + 2] == polygon[t + 2]
        }),
{
    let m = mesh_of(list, numbers)->Ok_0;
    faces_stay(list, numbers, (i + 1) as nat);
    let c = mesh_after(list, numbers, (i + 1) as nat)->Ok_0.corners;
    let polygon = polygon_is_added(list, numbers, i);
    let base = 3 * triangles_before(list, i as nat);
    let at = 3 * (triangles_before(list, i as nat) + t);
    face_becomes_triangles(polygon, t);
    let f = fan(polygon);
    assert(c[base + 3 * t] == f[3 * t]);
    assert(c[base + (3 * t + 1)] == f[3 * t + 1]);
    assert(c[base + (3 * t + 2)] == f[3 * t + 2]);
    entries_stay(c, m.corners, at);
    entries_stay(c, m.corners, at + 1);
    entries_stay(c, m.corners, at + 2);
    polygon
}

/// The corners that the first statements give stay the first corners of the mesh.
proof fn faces_stay(list: Seq<StatementModel>, numbers: Seq<ObjNumber>, n: nat)
    requires
        n <= list.len(),
        mesh_of(list, numbers) is Ok,
    ensures
        mesh_after(list, numbers, n) is Ok,
        mesh_after(list, numbers, n)->Ok_0.corners.is_prefix_of(mesh_of(list, numbers)->Ok_0.corners),
        mesh_of(list, numbers)->Ok_0.corners.len() == 3 * triangles_before(list, list.len()),
{
    lists_grow(list, numbers, n, list.len());
}

/// An entry of a list is the same in a list that goes on from it.
proof fn entries_stay(short: Seq<ObjRef>, long: Seq<ObjRef>, k: int)
    requires
        short.is_prefix_of(long),
        0 <= k < short.len(),
    ensures
        short.len() <= long.len(),
        long[k] == short[k],
{
    assert(long.subrange(0, short.len() as int)[k] == short[k]);
}

/// The corners of a face, and the triangles that they add.
#[verifier::spinoff_prover]
#[verifier::rlimit(40)]
proof fn polygon_is_added(list: Seq<StatementModel>, numbers: Seq<ObjNumber>, i: int) -> (polygon:
    Seq<ObjRef>)
    requires
        0 <= i < list.len(),
        list[i].tag == ObjTag::Face,
        mesh_after(list, numbers, (i + 1) as nat) is Ok,
    ensures
        polygon.len() == list[i].fields.len() >= 3,
        forall|j: int|
            0 <= j < polygon.len() ==> corner(
                list[i].fields[j],
                count_of(list, ObjTag::Position, i as nat),
                count_of(list, ObjTag::TexCoord, i as nat),
                count_of(list, ObjTag::Normal, i as nat),
                list[i].line_no,
            ) == Ok::<ObjRef, ErrorModel>(#[trigger] polygon[j]),
        ({
            let c = mesh_after(list, numbers, (i + 1) as nat)->Ok_0.corners;
            let at = 3 * triangles_before(list, i as nat);
            &&& 0 <= at
            &&& c.len() == at + fan(polygon).len()
            &&& forall|k: int| 0 <= k < fan(polygon).len() ==> c[at + k] == #[trigger] fan(polygon)[k]
        }),
{
    lists_grow(list, numbers, i as nat, i as nat);
    let b = mesh_after(list, numbers, i as nat)->Ok_0;
    let s = list[i];
    corners_are_counted(s, b, s.fields.len());
    let polygon = corners(s, b, s.fields.len())->Ok_0;
    assert(mesh_after(list, numbers, (i + 1) as nat)->Ok_0.corners == b.corners + fan(polygon));
    polygon
}

/// There are no more statements of a kind than statements.
proof fn counts_are_small(list: Seq<StatementModel>, tag: ObjTag, n: nat)
    ensures
        count_of(list, tag, n) <= n,
    decreases n,
{
    if n > 0 {
        counts_are_small(list, tag, (n - 1) as nat);
    }
}

/// Every vertex has the numbers that its corner points at. Without a texture coordinate it
/// lies at the origin; without a normal it takes that of the plane through the three points of
/// its triangle, in their order.
pub proof fn vertices_have_the_numbers_of_their_corners(m: MeshModel, k: int)
    requires
        m.wf(),
        0 <= k < m.corners.len(),
    ensures
        ({
            let c = m.corners[k];
            let first = 3 * (k / 3);
            let v = m.vertex(k);
            &&& v.position == m.positions[c.position as int]
            &&& match c.texcoord {
                Some(t) => v.texcoord == m.texcoords[t as int],
                None => v.texcoord.u.bits == 0 && v.texcoord.v.bits == 0,
            }
            &&& match c.normal {
                Some(n) => v.normal == NormalSource::Authored(m.normals[n as int]),
                None => v.normal == NormalSource::Plane(
                    m.vertex(first).position,
                    m.vertex(first + 1).position,
                    m.vertex(first + 2).position,
                ),
            }
        }),
{
}

/// Every kind of statement is opened by a word of its own, and by no other.
pub proof fn tags_are_told_apart(word: Seq<char>)
    ensures
        tag_of("v"@) == Some(ObjTag::Position),
        tag_of("vt"@) == Some(ObjTag::TexCoord),
        tag_of("vn"@) == Some(ObjTag::Normal),
        tag_of("f"@) == Some(ObjTag::Face),
        tag_of(word) is Some ==> word == "v"@ || word == "vt"@ || word == "vn"@ || word == "f"@,
{
    reveal_strlit("v");
    reveal_strlit("vt");
    reveal_strlit("vn");
    reveal_strlit("f");
    assert("v"@[0] == 'v' && "f"@[0] == 'f');
    assert("vt"@[1] == 't' && "vn"@[1] == 'n');
    assert("v"@.len() == 1 && "f"@.len() == 1 && "vt"@.len() == 2 && "vn"@.len() == 2);
}

/// Counting from the end is counting from the front: among `len` entries the index
/// `-k` means what the index `len + 1 - k` means.
pub proof fn negative_index_counts_from_the_end(
    negative: Seq<char>,
    positive: Seq<char>,
    k: int,
    len: nat,
    line_no: int,
    label: ObjLabel,
)
    requires
        1 <= k <= len <= isize::MAX,
        integer_value(negative) == Some(-k),
        integer_value(positive) == Some(len + 1 - k),
    ensures
        resolved_index(negative, len, line_no, label) == resolved_index(
            positive,
            len,
            line_no,
            label,
        ),
        resolved_index(negative, len, line_no, label) == Ok::<nat, ErrorModel>(
            (len - k) as nat,
        ),
{
}

impl ObjLabel {
    /// The name of the list.
    pub open spec fn name(self) -> Seq<char> {
        match self {
            ObjLabel::Position => "position"@,
            ObjLabel::TexCoord => "texcoord"@,
            ObjLabel::Normal => "normal"@,
        }
    }

    /// The name of the list.
    fn label(self) -> (r: &'static str)
        ensures
            r@ == self.name(),
    {
        match self {
            ObjLabel::Position => "position",
            ObjLabel::TexCoord => "texcoord",
            ObjLabel::Normal => "normal",
        }
    }
}

impl ErrorModel {
    /// What the user is told, where the file is called `source`.
    pub open spec fn message(self, source: Seq<char>) -> Seq<char> {
        let line = "OBJ line "@ + decimal(self.line_no as nat) + ": "@;
        match self.kind {
            ObjErrorKind::MissingComponent(tag) => line + "`"@ + tag.word()
                + "` is missing a component"@,
            ObjErrorKind::ParseFloat => line + "parse float `"@ + self.text + "`"@,
            ObjErrorKind::NonFiniteFloat => line + "non-finite float `"@ + self.text + "`"@,
            ObjErrorKind::InvalidFaceVertex => line + "invalid face vertex `"@ + self.text + "`"@,
            ObjErrorKind::ParseIndex(label) => line + "parse "@ + label.name() + " index `"@
                + self.text + "`"@,
            ObjErrorKind::ZeroIndex => line + "OBJ indices are 1-based, got 0"@,
            ObjErrorKind::IndexOutOfRange(label, len) => line + label.name() + " index `"@
                + self.text + "` is out of range for "@ + decimal(len as nat) + " entries"@,
            ObjErrorKind::ShortFace => line + "face has fewer than 3 vertices"@,
            ObjErrorKind::NoFaces => "OBJ contains no polygon faces: "@ + source,
        }
    }
}

impl ObjError {
    /// What the user is told, where the file is called `source`.
    pub fn message(&self, source: &str) -> (r: String)
        ensures
            r@ == self@.message(source@),
    {
        let line_no = decimal_text(self.line_no as u64);
        let line = String::from_str("OBJ line ").concat(line_no.as_str()).concat(": ");
        match self.kind {
            ObjErrorKind::MissingComponent(tag) => line.concat("`").concat(tag.keyword()).concat(
                "` is missing a component",
            ),
            ObjErrorKind::ParseFloat => line.concat("parse float `").concat(
                self.text.as_str(),
            ).concat("`"),
            ObjErrorKind::NonFiniteFloat => line.concat("non-finite float `").concat(
                self.text.as_str(),
            ).concat("`"),
            ObjErrorKind::InvalidFaceVertex => line.concat("invalid face vertex `").concat(
                self.text.as_str(),
            ).concat("`"),
            ObjErrorKind::ParseIndex(label) => line.concat("parse ").concat(label.label()).concat(
                " index `",
            ).concat(self.text.as_str()).concat("`"),
            ObjErrorKind::ZeroIndex => line.concat("OBJ indices are 1-based, got 0"),
            ObjErrorKind::IndexOutOfRange(label, len) => {
                let count = decimal_text(len as u64);
                line.concat(label.label()).concat(" index `").concat(self.text.as_str()).concat(
                    "` is out of range for ",
                ).concat(count.as_str()).concat(" entries")
            },
            ObjErrorKind::ShortFace => line.concat("face has fewer than 3 vertices"),
            ObjErrorKind::NoFaces => String::from_str("OBJ contains no polygon faces: ").concat(
                source,
            ),
        }
    }
}

/// The name of the mesh: that of the file where anything is left of it, else `mesh`.
pub fn mesh_name(identifier: Option<String>) -> (r: String)
    ensures
        r@ == match identifier {
            Some(name) if name@.len() > 0 => name@,
            _ => "mesh"@,
        },
{
    match identifier {
        Some(name) => if name.as_str().is_empty() {
            String::from_str("mesh")
        } else {
            name
        },
        None => String::from_str("mesh"),
    }
}

/// The USD document for a mesh of separate triangles: every corner is a point of its
/// own.
pub open spec fn document(
    name: Seq<char>,
    points: Seq<TripleText>,
    normals: Seq<TripleText>,
    uvs: Seq<PairText>,
) -> Seq<char> {
    document_start() + mesh_start(name) + face_vertex_counts(points.len() / 3)
        + face_vertex_indices(counting(points.len())) + points_block(points) + normals_block(
        normals,
        Interpolation::FaceVarying,
    ) + uvs_block(uvs, Interpolation::FaceVarying) + mesh_end() + "}\n"@
}

/// The USD document for a mesh, given the texts of its corners.
pub fn write_usda(
    name: &str,
    points: &Vec<TripleText>,
    normals: &Vec<TripleText>,
    uvs: &Vec<PairText>,
) -> (r: String)
    requires
        points@.len() == normals@.len() == uvs@.len(),
    ensures
        r@ == document(name@, points@, normals@, uvs@),
{
    let n: usize = points.len();
    let mut text = begin_document();
    begin_mesh(&mut text, name);
    write_face_vertex_counts(&mut text, n / 3);
    write_face_vertex_indices(&mut text, n);
    write_points(&mut text, points);
    write_normals(&mut text, normals, Interpolation::FaceVarying);
    write_uvs(&mut text, uvs, Interpolation::FaceVarying);
    end_mesh(&mut text);
    text.append("}\n");
    text
}

/// A document reads back as the mesh that it was made of: line by line, its name, its points,
/// normals and texture coordinates, each list under the heading that is meant for it and in
/// its own order, and a corner for each point. Nothing else stands in the document.
#[verifier::spinoff_prover]
#[verifier::rlimit(40)]
pub proof fn documents_read_back(
    name: Seq<char>,
    points: Seq<TripleText>,
    normals: Seq<TripleText>,
    uvs: Seq<PairText>,
)
    requires
        is_line(name),
        triples_are_lines(points),
        triples_are_lines(normals),
        pairs_are_lines(uvs),
    ensures
        ({
            let lines = split(document(name, points, normals, uvs), '\n');
            let end: int = 9 + mesh_height(points.len(), normals.len(), uvs.len()) as int;
            &&& lines.len() == end + 2
            &&& root_lines().is_prefix_of(lines)
            &&& shows_mesh(
                lines,
                9,
                name,
                Seq::new(points.len(), |i: int| i as nat),
                points,
                normals,
                uvs,
                Interpolation::FaceVarying,
            )
            &&& lines[end] == "}"@
            &&& lines[end + 1].len() == 0
        }),
{
    let n = points.len();
    let by = Interpolation::FaceVarying;
    let corners = Seq::new(n, |i: int| i as nat);
    let part = mesh_lines(name, n / 3, counting(n), points, normals, uvs, by);
    let close = seq!["}"@];
    let all = root_lines() + part + close;
    document_start_is_lines();
    counting_reads_back(n);
    a_mesh_is_shown(name, corners, counting(n), points, normals, uvs, by);
    reveal_strlit("}");
    reveal_strlit("}\n");
    one_line("}"@);
    assert("}\n"@ =~= "}"@ + seq!['\n']);
    assert(is_line("}"@));
    lines_follow(root_lines(), part);
    lines_follow(root_lines() + part, close);
    assert(of_lines(all) =~= document(name, points, normals, uvs));
    lines_read_back(all);
    let lines = split(document(name, points, normals, uvs), '\n');
    assert(lines == all.push(Seq::<char>::empty()));
    assert(root_lines() =~= lines.subrange(0, 9));
    meshes_are_shown_anywhere(lines, 9, part, name, corners, points, normals, uvs, by);
}

/// What follows a `#` on a line does not count.
pub proof fn comments_do_not_count(line: Seq<char>, comment: Seq<char>, line_no: int)
    requires
        forall|i: int| 0 <= i < line.len() ==> #[trigger] line[i] != '#',
    ensures
        statement_on(line + seq!['#'] + comment, line_no) == statement_on(line, line_no),
{
    let empty = Seq::<char>::empty();
    assert(split(empty, '#') =~= seq![empty]);
    pieces_go_on(empty, line, '#');
    assert(empty + line =~= line);
    assert(split(line, '#') =~= seq![line]);
    pieces_end(line, '#');
    first_pieces_stay(line + seq!['#'], comment, '#');
}

/// The first piece of a text stays the first piece where more follows a separator.
proof fn first_pieces_stay(s: Seq<char>, t: Seq<char>, sep: char)
    requires
        split(s, sep).len() >= 2,
    ensures
        split(s + t, sep).len() >= 2,
        split(s + t, sep)[0] == split(s, sep)[0],
    decreases t.len(),
{
    if t.len() == 0 {
        assert(s + t =~= s);
    } else {
        first_pieces_stay(s, t.drop_last(), sep);
        assert((s + t).drop_last() =~= s + t.drop_last());
    }
}

/// The statements of a file stand on its lines: each on the line of its number, in order, and no
/// line with a statement is passed over.
#[verifier::spinoff_prover]
#[verifier::rlimit(40)]
pub proof fn statements_stand_on_their_lines(lines: Seq<Seq<char>>, n: nat)
    requires
        n <= lines.len(),
    ensures
        ({
            let all = statements_on(lines, n);
            &&& forall|i: int|
                0 <= i < all.len() ==> 1 <= (#[trigger] all[i]).line_no <= n && statement_on(
                    lines[all[i].line_no - 1],
                    all[i].line_no,
                ) == Some(all[i])
            &&& forall|i: int, j: int|
                0 <= i < j < all.len() ==> (#[trigger] all[i]).line_no < (#[trigger] all[j]).line_no
            &&& forall|k: int|
                0 <= k < n && statement_on(#[trigger] lines[k], k + 1) is Some ==> all.contains(
                    statement_on(lines[k], k + 1)->0,
                )
        }),
    decreases n,
{
    if n > 0 {
        let b = (n - 1) as nat;
        statements_stand_on_their_lines(lines, b);
        let before = statements_on(lines, b);
        let all = statements_on(lines, n);
        assert forall|k: int|
            0 <= k < n && statement_on(#[trigger] lines[k], k + 1) is Some implies all.contains(
            statement_on(lines[k], k + 1)->0,
        ) by {
            let s = statement_on(lines[k], k + 1)->0;
            if k < b {
                assert(before.contains(s));
                let i = choose|i: int| 0 <= i < before.len() && before[i] == s;
                assert(all[i] == s);
            } else {
                assert(all[all.len() - 1] == s);
            }
        }
    }
}

/// The value of a mesh has each list where the mesh has it, and so have the values of a
/// statement and of an error.
pub proof fn values_keep_their_lists(m: ObjMesh, s: ObjStatement, e: ObjError)
    ensures
        m@.positions == m.positions@,
        m@.texcoords == m.texcoords@,
        m@.normals == m.normals@,
        m@.corners == m.corners@,
        s@.line_no == s.line_no && s@.tag == s.tag && s@.fields == views(s.fields@),
        e@.kind == e.kind && e@.line_no == e.line_no && e@.text == e.text@,
{
}

/// What is reported is the first thing that is wrong: all statements before the one that it is
/// reported of make a mesh. Where no statement is wrong there is a mesh, or there are no faces.
#[verifier::spinoff_prover]
#[verifier::rlimit(40)]
pub proof fn the_first_mistake_is_reported(list: Seq<StatementModel>, numbers: Seq<ObjNumber>)
    ensures
        match mesh_of(list, numbers) {
            Ok(m) => mesh_after(list, numbers, list.len()) == Ok::<MeshModel, ErrorModel>(m)
                && m.corners.len() > 0,
            Err(e) => (e.kind == ObjErrorKind::NoFaces && e.line_no == 0 && (mesh_after(
                list,
                numbers,
                list.len(),
            ) matches Ok(m) && m.corners.len() == 0)) || exists|i: int|
                0 <= i < list.len() && (mesh_after(list, numbers, i as nat) is Ok) && mesh_after(
                    list,
                    numbers,
                    (i + 1) as nat,
                ) == Err::<MeshModel, ErrorModel>(e) && e.line_no == (#[trigger] list[i]).line_no,
        },
{
    first_mistake_within(list, numbers, list.len());
}

/// The same among the first `n` statements.
#[verifier::spinoff_prover]
#[verifier::rlimit(40)]
proof fn first_mistake_within(list: Seq<StatementModel>, numbers: Seq<ObjNumber>, n: nat)
    requires
        n <= list.len(),
    ensures
        mesh_after(list, numbers, n) matches Err(e) ==> exists|i: int|
            0 <= i < n && (mesh_after(list, numbers, i as nat) is Ok) && mesh_after(
                list,
                numbers,
                (i + 1) as nat,
            ) == Err::<MeshModel, ErrorModel>(e) && e.line_no == (#[trigger] list[i]).line_no,
    decreases n,
{
    if n > 0 {
        let b = (n - 1) as nat;
        first_mistake_within(list, numbers, b);
        if let Ok(m) = mesh_after(list, numbers, b) {
            let s = list[b as int];
            if s.tag == ObjTag::Face {
                mistakes_stand_on_the_line(s, m, s.fields.len());
            }
        }
    }
}

/// What is wrong with a corner is reported on the line of its face.
proof fn mistakes_stand_on_the_line(s: StatementModel, m: MeshModel, n: nat)
    ensures
        corners(s, m, n) matches Err(e) ==> e.line_no == s.line_no,
    decreases n,
{
    if n > 0 {
        mistakes_stand_on_the_line(s, m, (n - 1) as nat);
    }
}

/// A coordinate is taken where its word is a finite number; else it is said which of the three
/// things is wrong with it: it is missing, it is no number, or it is not finite.
pub proof fn components_are_numbers(s: StatementModel, numbers: Seq<ObjNumber>, at: int, i: int)
    requires
        0 <= i,
    ensures
        match component(s, numbers, at, i) {
            Ok(x) => i < s.fields.len() && numbers[at + i] == ObjNumber::Finite(x),
            Err(e) => e.line_no == s.line_no && match e.kind {
                ObjErrorKind::MissingComponent(tag) => tag == s.tag && i >= s.fields.len(),
                ObjErrorKind::ParseFloat => i < s.fields.len() && numbers[at + i]
                    == ObjNumber::Malformed && e.text == s.fields[i],
                ObjErrorKind::NonFiniteFloat => i < s.fields.len() && numbers[at + i]
                    == ObjNumber::NotFinite && e.text == s.fields[i],
                _ => false,
            },
        },
{
}

/// An index that is refused is no number, is zero, or points beyond the list, and it is said
/// which.
pub proof fn refused_indices_are_wrong(text: Seq<char>, len: nat, line_no: int, label: ObjLabel)
    requires
        len <= usize::MAX,
    ensures
        match resolved_index(text, len, line_no, label) {
            Ok(entry) => entry < len && (integer_value(text) == Some(entry as int + 1) || integer_value(text)
                == Some(entry - len)),
            Err(e) => e.text == text && e.line_no == line_no && match e.kind {
                ObjErrorKind::ParseIndex(l) => l == label && !(integer_value(text) matches Some(v)
                    && isize::MIN <= v <= isize::MAX),
                ObjErrorKind::ZeroIndex => integer_value(text) == Some(0int),
                ObjErrorKind::IndexOutOfRange(l, n) => l == label && n == len && (
                integer_value(text) matches Some(v) && (v > len || v < -len)),
                _ => false,
            },
        },
{
}

} // verus!
