use vstd::prelude::*;

verus! {

/// What `candid::Principal::from_text` makes of a text: the bytes of the
/// principal, or the text of the error.
pub uninterp spec fn principal_text_decoding(text: Seq<char>) -> Result<Seq<u8>, Seq<char>>;

/// `candid::Principal::from_text`, with the principal as its bytes
/// (`as_slice`) and the error as its text (`to_string`). A principal has 29
/// bytes at most.
#[verifier::external_body]
fn decode_principal_text(text: &str) -> (r: Result<Vec<u8>, String>)
    ensures
        match r {
            Ok(bytes) => principal_text_decoding(text@) == Ok::<Seq<u8>, Seq<char>>(bytes@)
                && bytes@.len() <= 29,
            Err(e) => principal_text_decoding(text@) == Err::<Seq<u8>, Seq<char>>(e@),
        },
{
    match candid::Principal::from_text(text) {
        Ok(principal) => Ok(principal.as_slice().to_vec()),
        Err(e) => Err(e.to_string()),
    }
}

/// `candid::Principal::anonymous`, as its bytes: the one byte 4.
#[verifier::external_body]
fn anonymous_bytes() -> (r: Vec<u8>)
    ensures
        r@ == seq![4u8],
{
    candid::Principal::anonymous().as_slice().to_vec()
}

/// The bytes of the anonymous identity.
pub open spec fn anonymous_view() -> Seq<u8> {
    seq![4u8]
}

fn same_bytes(a: &Vec<u8>, b: &Vec<u8>) -> (r: bool)
    ensures
        r == (a@ == b@),
{
    let n = a.len();
    if b.len() != n {
        return false;
    }
    let mut i: usize = 0;
    while i < n
        invariant
            i <= n,
            n == a@.len(),
            n == b@.len(),
            forall|j: int| 0 <= j < i ==> a@[j] == b@[j],
        decreases n - i,
    {
        if a[i] != b[i] {
            return false;
        }
        i += 1;
    }
    assert(a@ =~= b@);
    true
}

/// An identity that may call the store: at most 29 bytes.
#[derive(Debug)]
pub struct Principal {
    bytes: Vec<u8>,
}

impl View for Principal {
    type V = Seq<u8>;

    closed spec fn view(&self) -> Seq<u8> {
        self.bytes@
    }
}

impl DeepView for Principal {
    type V = Seq<u8>;

    open spec fn deep_view(&self) -> Seq<u8> {
        self@
    }
}

impl Clone for Principal {
    fn clone(&self) -> (r: Self)
        ensures
            r@ == self@,
    {
        proof {
            use_type_invariant(self);
        }
        Principal { bytes: self.bytes.clone() }
    }
}

impl PartialEq for Principal {
    fn eq(&self, other: &Self) -> (r: bool) {
        same_bytes(&self.bytes, &other.bytes)
    }
}

impl Eq for Principal {}

impl vstd::std_specs::cmp::PartialEqSpecImpl for Principal {
    open spec fn obeys_eq_spec() -> bool {
        true
    }

    open spec fn eq_spec(&self, other: &Self) -> bool {
        self@ == other@
    }
}

impl Principal {
    #[verifier::type_invariant]
    closed spec fn wf(self) -> bool {
        self.bytes@.len() <= 29
    }

    /// The identity that a text stands for.
    pub fn from_text(text: &str) -> (r: Result<Self, String>)
        ensures
            match r {
                Ok(p) => principal_text_decoding(text@) == Ok::<Seq<u8>, Seq<char>>(p@),
                Err(e) => principal_text_decoding(text@) == Err::<Seq<u8>, Seq<char>>(e@),
            },
    {
        match decode_principal_text(text) {
            Ok(bytes) => Ok(Principal { bytes }),
            Err(e) => Err(e),
        }
    }

    /// Whether two identities are the same.
    pub fn same_as(&self, other: &Principal) -> (r: bool)
        ensures
            r == (self@ == other@),
    {
        same_bytes(&self.bytes, &other.bytes)
    }

    /// The identity of a caller who gave none.
    pub fn anonymous() -> (r: Self)
        ensures
            r@ == anonymous_view(),
    {
        Principal { bytes: anonymous_bytes() }
    }

    /// The identity with the given bytes, if they are 29 at most.
    pub fn from_bytes(bytes: Vec<u8>) -> (r: Option<Self>)
        ensures
            match r {
                Some(p) => bytes@.len() <= 29 && p@ == bytes@,
                None => bytes@.len() > 29,
            },
    {
        if bytes.len() <= 29 {
            Some(Principal { bytes })
        } else {
            None
        }
    }

    /// The bytes of the identity.
    pub fn as_slice(&self) -> (r: &[u8])
        ensures
            r@ == self@,
            r@.len() <= 29,
    {
        proof {
            use_type_invariant(self);
        }
        self.bytes.as_slice()
    }
}

/// The first position from `i` on at which `list` holds `wanted`.
pub open spec fn position_from(list: Seq<Seq<u8>>, wanted: Seq<u8>, i: int) -> Option<int>
    decreases list.len() - i,
{
    if i < 0 || i >= list.len() {
        None
    } else if list[i] == wanted {
        Some(i)
    } else {
        position_from(list, wanted, i + 1)
    }
}

/// `position_from` finds an identity exactly where the list holds it.
pub proof fn lemma_position_from(list: Seq<Seq<u8>>, wanted: Seq<u8>, i: int)
    requires
        0 <= i,
    ensures
        match position_from(list, wanted, i) {
            Some(at) => i <= at < list.len() && list[at] == wanted && forall|k: int|
                i <= k < at ==> list[k] != wanted,
            None => forall|k: int| i <= k < list.len() ==> list[k] != wanted,
        },
    decreases list.len() - i,
{
    if i < list.len() && list[i] != wanted {
        lemma_position_from(list, wanted, i + 1);
    }
}

/// The first position at which a list holds an identity.
pub fn position_of(list: &Vec<Principal>, wanted: &Principal) -> (r: Option<usize>)
    ensures
        match r {
            Some(at) => position_from(list.deep_view(), wanted@, 0) == Some(at as int),
            None => position_from(list.deep_view(), wanted@, 0) is None,
        },
        r is Some == list.deep_view().contains(wanted@),
{
    let ghost views = list.deep_view();
    let n = list.len();
    let mut i: usize = 0;
    while i < n
        invariant
            i <= n,
            n == list.len(),
            views == list.deep_view(),
            position_from(views, wanted@, 0) == position_from(views, wanted@, i as int),
            forall|k: int| 0 <= k < i ==> views[k] != wanted@,
        decreases n - i,
    {
        proof {
            assert(views[i as int] == list[i as int]@);
        }
        if list[i].same_as(wanted) {
            return Some(i);
        }
        i += 1;
    }
    None
}

} // verus!
