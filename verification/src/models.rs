use vstd::prelude::*;
use vstd::string::StringExecFns;
use crate::text::chars_vec;

verus! {

/// Mathematical model of one declared field: its name and the raw text of its
/// declared type, both as character sequences.
pub ghost struct FieldModel {
    pub name: Seq<char>,
    pub ty: Seq<char>,
}

/// Mathematical model of one associated function: its name, the names of the
/// fields it reads through the receiver, the raw type paths it references that
/// are not its own fields, and its cyclomatic complexity.
pub ghost struct MethodModel {
    pub name: Seq<char>,
    pub fields_accessed: Seq<Seq<char>>,
    pub external_type_refs: Seq<Seq<char>>,
    pub cyclomatic_complexity: nat,
}

/// Mathematical model of one extracted composite type.
pub ghost struct StructModel {
    pub name: Seq<char>,
    pub fields: Seq<FieldModel>,
    pub methods: Seq<MethodModel>,
    pub traits: Seq<Seq<char>>,
}

/// The models of a sequence of extracted structs.
pub open spec fn models_of(ss: Seq<StructInfo>) -> Seq<StructModel> {
    ss.map_values(|x: StructInfo| x@)
}

/// Information about a struct field: its name and the raw text of its
/// declared type (unresolved, compared only as a string).
#[derive(Debug, Clone)]
pub struct FieldInfo {
    pub name: String,
    pub ty: String,
}

impl View for FieldInfo {
    type V = FieldModel;

    open spec fn view(&self) -> FieldModel {
        FieldModel { name: self.name@, ty: self.ty@ }
    }
}

/// Information about a method: which declared fields its body reads through
/// the receiver, which external type paths it references, and its cyclomatic
/// complexity (always at least 1 when produced by the analyzer).
#[derive(Debug, Clone)]
pub struct MethodInfo {
    pub name: String,
    pub fields_accessed: Vec<String>,
    pub external_type_refs: Vec<String>,
    pub cyclomatic_complexity: usize,
}

impl View for MethodInfo {
    type V = MethodModel;

    open spec fn view(&self) -> MethodModel {
        MethodModel {
            name: self.name@,
            fields_accessed: self.fields_accessed@.map_values(|s: String| s@),
            external_type_refs: self.external_type_refs@.map_values(|s: String| s@),
            cyclomatic_complexity: self.cyclomatic_complexity as nat,
        }
    }
}

/// Information about a struct: its declared fields, the methods attached from
/// its inherent impl blocks, and the names of the traits it implements.
#[derive(Debug, Clone)]
pub struct StructInfo {
    pub name: String,
    pub fields: Vec<FieldInfo>,
    pub methods: Vec<MethodInfo>,
    pub traits: Vec<String>,
}

impl View for StructInfo {
    type V = StructModel;

    open spec fn view(&self) -> StructModel {
        StructModel {
            name: self.name@,
            fields: self.fields@.map_values(|f: FieldInfo| f@),
            methods: self.methods@.map_values(|m: MethodInfo| m@),
            traits: self.traits@.map_values(|s: String| s@),
        }
    }
}

/// An exact rational in [0, 1], used for the cohesion score: the numerator
/// never exceeds the denominator and the denominator is positive.
#[derive(Debug, Clone, Copy, PartialEq, Eq, Structural)]
pub struct Ratio {
    pub num: u128,
    pub den: u128,
}

impl Ratio {
    /// A ratio is well formed when it denotes a value in [0, 1].
    pub open spec fn wf(self) -> bool {
        1 <= self.den && self.num <= self.den
    }

    /// The zero ratio.
    pub fn zero() -> (r: Ratio)
        ensures
            r.wf(),
            r.num == 0,
            r.den == 1,
    {
        Ratio { num: 0, den: 1 }
    }
}

/// Mathematical model of one analysis result.
pub ghost struct ResultModel {
    pub struct_name: Seq<char>,
    pub lcom_num: int,
    pub lcom_den: int,
    pub cbo: int,
    pub wmc: int,
}

/// The analysis result for one struct: the three metric scores.
#[derive(Debug, Clone)]
pub struct AnalysisResult {
    pub struct_name: String,
    pub lcom: Ratio,
    pub cbo: usize,
    pub wmc: usize,
}

impl View for AnalysisResult {
    type V = ResultModel;

    open spec fn view(&self) -> ResultModel {
        ResultModel {
            struct_name: self.struct_name@,
            lcom_num: self.lcom.num as int,
            lcom_den: self.lcom.den as int,
            cbo: self.cbo as int,
            wmc: self.wmc as int,
        }
    }
}

/// Output format options for the rendered report.
#[derive(Debug, Clone, Copy, PartialEq, Eq, Structural, Default)]
pub enum OutputFormat {
    #[default]
    Table,
    Json,
    Csv,
}

/// An uppercase ASCII letter mapped to its lowercase form; any other
/// character is left as it is.
pub open spec fn lower_char(c: char) -> char {
    match c {
        'A' => 'a',
        'B' => 'b',
        'C' => 'c',
        'D' => 'd',
        'E' => 'e',
        'F' => 'f',
        'G' => 'g',
        'H' => 'h',
        'I' => 'i',
        'J' => 'j',
        'K' => 'k',
        'L' => 'l',
        'M' => 'm',
        'N' => 'n',
        'O' => 'o',
        'P' => 'p',
        'Q' => 'q',
        'R' => 'r',
        'S' => 's',
        'T' => 't',
        'U' => 'u',
        'V' => 'v',
        'W' => 'w',
        'X' => 'x',
        'Y' => 'y',
        'Z' => 'z',
        _ => c,
    }
}

/// The text with every uppercase ASCII letter lowered.
pub open spec fn lower_seq(s: Seq<char>) -> Seq<char> {
    s.map_values(|c: char| lower_char(c))
}

fn lower_c(c: char) -> (r: char)
    ensures
        r == lower_char(c),
{
    match c {
        'A' => 'a',
        'B' => 'b',
        'C' => 'c',
        'D' => 'd',
        'E' => 'e',
        'F' => 'f',
        'G' => 'g',
        'H' => 'h',
        'I' => 'i',
        'J' => 'j',
        'K' => 'k',
        'L' => 'l',
        'M' => 'm',
        'N' => 'n',
        'O' => 'o',
        'P' => 'p',
        'Q' => 'q',
        'R' => 'r',
        'S' => 's',
        'T' => 't',
        'U' => 'u',
        'V' => 'v',
        'W' => 'w',
        'X' => 'x',
        'Y' => 'y',
        'Z' => 'z',
        _ => c,
    }
}

impl OutputFormat {
    /// Parses a format name, ignoring ASCII case: `table`, `json` or `csv`;
    /// anything else is rejected with a message naming the input.
    pub fn from_str(s: &str) -> (r: Result<OutputFormat, String>)
        ensures
            r == Ok::<OutputFormat, String>(OutputFormat::Table) <==> lower_seq(s@) == seq![
                't',
                'a',
                'b',
                'l',
                'e',
            ],
            r == Ok::<OutputFormat, String>(OutputFormat::Json) <==> lower_seq(s@) == seq![
                'j',
                's',
                'o',
                'n',
            ],
            r == Ok::<OutputFormat, String>(OutputFormat::Csv) <==> lower_seq(s@) == seq![
                'c',
                's',
                'v',
            ],
            r matches Err(msg) ==> msg@ == "Unknown format: "@ + s@,
    {
        let cs = chars_vec(s);
        let n = cs.len();
        let mut lc: Vec<char> = Vec::new();
        let mut i: usize = 0;
        while i < n
            invariant
                cs@ == s@,
                n == s@.len(),
                i <= n,
                lc@.len() == i,
                forall|j: int| 0 <= j < i ==> lc@[j] == lower_char(s@[j]),
            decreases n - i,
        {
            lc.push(lower_c(cs[i]));
            i += 1;
        }
        proof {
            assert(lc@ =~= lower_seq(s@));
        }
        if n == 5 && lc[0] == 't' && lc[1] == 'a' && lc[2] == 'b' && lc[3] == 'l' && lc[4]
            == 'e' {
            proof {
                assert(lower_seq(s@) =~= seq!['t', 'a', 'b', 'l', 'e']);
            }
            Ok(OutputFormat::Table)
        } else if n == 4 && lc[0] == 'j' && lc[1] == 's' && lc[2] == 'o' && lc[3] == 'n' {
            proof {
                assert(lower_seq(s@) =~= seq!['j', 's', 'o', 'n']);
            }
            Ok(OutputFormat::Json)
        } else if n == 3 && lc[0] == 'c' && lc[1] == 's' && lc[2] == 'v' {
            proof {
                assert(lower_seq(s@) =~= seq!['c', 's', 'v']);
            }
            Ok(OutputFormat::Csv)
        } else {
            proof {
                if lower_seq(s@) == seq!['t', 'a', 'b', 'l', 'e'] {
                    assert(lc@[0] == 't' && lc@[1] == 'a' && lc@[2] == 'b' && lc@[3] == 'l'
                        && lc@[4] == 'e');
                }
                if lower_seq(s@) == seq!['j', 's', 'o', 'n'] {
                    assert(lc@[0] == 'j' && lc@[1] == 's' && lc@[2] == 'o' && lc@[3] == 'n');
                }
                if lower_seq(s@) == seq!['c', 's', 'v'] {
                    assert(lc@[0] == 'c' && lc@[1] == 's' && lc@[2] == 'v');
                }
            }
            Err(String::from_str("Unknown format: ").concat(s))
        }
    }
}

} // verus!
