use crate::error::HeaderError;
use vstd::prelude::*;

verus! {

/// The kind of a multipart part, as its Content-Disposition header
/// declares it.
#[derive(Debug, Clone, Copy, PartialEq, Eq, Structural)]
pub enum DispositionKind {
    /// `form-data`: the part belongs to a form submission.
    FormData,
    /// `attachment`: the part should be saved rather than processed.
    Attachment,
    /// Any other disposition type.
    Other,
}

/// One parameter of a Content-Disposition header value.
#[derive(Debug, Clone, PartialEq, Eq)]
pub enum DispositionParam {
    /// A `name` parameter: the identifier of the form field.
    Name(String),
    /// A `filename` parameter: the file name the part declares.
    Filename(String),
    /// An unrecognized parameter, preserved as its name and value.
    Unknown(String, String),
}

/// A parsed Content-Disposition header value: the disposition kind and the
/// ordered parameter list, as an upstream header-grammar parser produced
/// them.
///
/// e.g. `Content-Disposition: form-data; name="field_name"; filename="filename.jpg"`
#[derive(Debug, Clone, PartialEq, Eq)]
pub struct ContentDisposition {
    /// The disposition type of the part.
    pub disposition: DispositionKind,
    /// The parameters, in the order the header listed them.
    pub parameters: Vec<DispositionParam>,
}

/// True when the parameter is a `name` parameter whose value is exactly
/// `field`.
pub open spec fn is_name_param(p: DispositionParam, field: Seq<char>) -> bool {
    match p {
        DispositionParam::Name(n) => n@ == field,
        _ => false,
    }
}

/// True when the part is a form-data part carrying a `name` parameter whose
/// value is exactly `field`.
pub open spec fn has_form_field_spec(cd: ContentDisposition, field: Seq<char>) -> bool {
    cd.disposition is FormData && exists|i: int|
        0 <= i < cd.parameters@.len() && #[trigger] is_name_param(cd.parameters@[i], field)
}

/// The value of the first `filename` parameter, if any.
pub open spec fn first_filename(params: Seq<DispositionParam>) -> Option<Seq<char>>
    decreases params.len(),
{
    if params.len() == 0 {
        None
    } else {
        match params[0] {
            DispositionParam::Filename(f) => Some(f@),
            _ => first_filename(params.skip(1)),
        }
    }
}

/// An attachment part never counts as a named form field, whatever its
/// parameters hold.
pub proof fn lemma_attachment_has_no_form_field(cd: ContentDisposition, field: Seq<char>)
    requires
        cd.disposition is Attachment,
    ensures
        !has_form_field_spec(cd, field),
{
}

impl ContentDisposition {
    /// Checks if the content disposition is a form data
    /// and has the field `field_name`.
    pub fn has_form_field(&self, field_name: &str) -> (r: bool)
        ensures
            r == has_form_field_spec(*self, field_name@),
    {
        match self.disposition {
            DispositionKind::FormData => {},
            _ => {
                return false;
            },
        }
        let field_string: String = field_name.to_owned();
        let mut i: usize = 0;
        while i < self.parameters.len()
            invariant
                0 <= i <= self.parameters@.len(),
                self.disposition is FormData,
                field_string@ == field_name@,
                forall|j: int| 0 <= j < i ==> !is_name_param(self.parameters@[j], field_name@),
            decreases self.parameters@.len() - i,
        {
            match &self.parameters[i] {
                DispositionParam::Name(n) => {
                    if *n == field_string {
                        assert(is_name_param(self.parameters@[i as int], field_name@));
                        return true;
                    }
                },
                _ => {},
            }
            i = i + 1;
        }
        false
    }

    /// Parses the file name from parameters if it exists.
    ///
    /// Fails with a caller fault when no `filename` parameter is present or
    /// when the first one carries an empty value. Only the empty value
    /// counts as absent: a value of nothing but whitespace is returned
    /// as-is, untrimmed.
    pub fn get_file_name(&self) -> (r: Result<&str, HeaderError>)
        ensures
            ({
                let ff = first_filename(self.parameters@);
                match ff {
                    Some(f) => if f.len() > 0 {
                        r matches Ok(s) && s@ == f
                    } else {
                        r matches Err(e) && e matches HeaderError::CallerFault(m) && m@
                            == "file data not present"@
                    },
                    None => r matches Err(e) && e matches HeaderError::CallerFault(m) && m@
                        == "file data not present"@,
                }
            }),
    {
        proof {
            assert(self.parameters@.skip(0) =~= self.parameters@);
        }
        let mut i: usize = 0;
        while i < self.parameters.len()
            invariant
                0 <= i <= self.parameters@.len(),
                first_filename(self.parameters@) == first_filename(
                    self.parameters@.skip(i as int),
                ),
            decreases self.parameters@.len() - i,
        {
            proof {
                assert(self.parameters@.skip(i as int)[0] == self.parameters@[i as int]);
            }
            match &self.parameters[i] {
                DispositionParam::Filename(f) => {
                    if f.as_str().is_empty() {
                        return Err(
                            HeaderError::CallerFault("file data not present".to_owned()),
                        );
                    } else {
                        return Ok(f.as_str());
                    }
                },
                _ => {},
            }
            proof {
                assert(self.parameters@.skip(i as int).skip(1) =~= self.parameters@.skip(
                    i as int + 1,
                ));
            }
            i = i + 1;
        }
        proof {
            assert(self.parameters@.skip(i as int) =~= Seq::<DispositionParam>::empty());
        }
        Err(HeaderError::CallerFault("file data not present".to_owned()))
    }
}

} // verus!
