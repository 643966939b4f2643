//! What a quote request says: every member counts where it is given and its default where
//! it is not, and a circuit is compiled only for an approved shape.

use vstd::prelude::*;
use crate::json::{text_in, unsigned_in, Json};
use crate::resident_quote::{
    approval_refusal, approved_at, circuit_refusal, flag_field, flag_refusal, header_refusal, input_refusal,
    number_refusal, policies_in, policies_said, request_refusal, short_refusal, size_refusal, table_json,
    table_refusal, table_said, text_field, text_refusal, wide_in, wide_refusal, Approval, Disclosure, Mode,
    ProgramDefaults, Request,
};

verus! {

/// Modes and disclosures are told by names of their own.
pub proof fn modes_are_named()
    ensures
        Mode::Rfq.name() == "rfq"@,
        Mode::Rfm.name() == "rfm"@,
        Mode::Rfs.name() == "rfs"@,
        Disclosure::Nothing.name() == "none"@,
        Disclosure::Threshold.name() == "threshold"@,
{
}

/// A wide number is read of an integer of sixty-four bits, signed or not, or of its text;
/// of anything else none is.
pub proof fn wide_number_is_read_exactly(value: Option<Json>)
    ensures
        value matches Some(Json::Integer(i)) ==> (wide_in(value) == Some(i) <==> -0x8000_0000_0000_0000 <= i
            <= 0xffff_ffff_ffff_ffff),
        value matches Some(Json::Integer(i)) ==> (wide_in(value) is Some <==> -0x8000_0000_0000_0000 <= i
            <= 0xffff_ffff_ffff_ffff),
        value is None || (value->0 is Null || value->0 is Bool || value->0 is Fraction || value->0 is Array
            || value->0 is Object) ==> wide_in(value) is None,
{
}

/// A member of a request that is absent takes its default, and one that is given is taken
/// as it is written.
pub proof fn request_says_what_is_written(value: Json, defaults: ProgramDefaults, request: Request)
    requires
        request_refusal(value, defaults) is None,
        request.written(value, defaults),
    ensures
        value.field("n_mm"@) is None ==> request.n_mm == defaults.n_mm,
        value.field("n_mm"@) is Some ==> unsigned_in(value.field("n_mm"@)) == Some(request.n_mm as nat),
        value.field("n_parties"@) is None ==> request.n_parties == defaults.n_parties,
        value.field("n_parties"@) is Some ==> unsigned_in(value.field("n_parties"@)) == Some(request.n_parties as nat),
        value.field("rfs_steps"@) is None ==> request.rfs_steps == defaults.rfs_steps,
        value.field("rfs_steps"@) is Some ==> unsigned_in(value.field("rfs_steps"@)) == Some(request.rfs_steps as nat),
        value.field("bit_length"@) is None ==> request.bit_length == 31,
        value.field("bit_length"@) is Some ==> unsigned_in(value.field("bit_length"@)) == Some(
            request.bit_length as nat,
        ),
        value.field("argmin_arity"@) is None ==> request.argmin_arity == defaults.argmin_arity,
        value.field("argmin_arity"@) is Some ==> unsigned_in(value.field("argmin_arity"@)) == Some(
            request.argmin_arity as nat,
        ),
        value.field("n_assets"@) is None ==> request.n_assets == defaults.n_assets,
        value.field("n_assets"@) is Some ==> unsigned_in(value.field("n_assets"@)) == Some(request.n_assets as nat),
        value.field("n_requests"@) is None ==> request.n_requests == defaults.n_requests,
        value.field("n_requests"@) is Some ==> unsigned_in(value.field("n_requests"@)) == Some(
            request.n_requests as nat,
        ),
        value.field("threshold"@) is None ==> request.threshold == 2,
        value.field("threshold"@) is Some ==> unsigned_in(value.field("threshold"@)) == Some(request.threshold as nat),
        value.field("user_asset"@) is None ==> request.user_asset == 0,
        value.field("user_asset"@) is Some ==> unsigned_in(value.field("user_asset"@)) == Some(
            request.user_asset as nat,
        ),
        value.field("user_qty"@) is None ==> request.user_qty == 100,
        value.field("user_qty"@) is Some ==> wide_in(value.field("user_qty"@)) == Some(request.user_qty as int),
        value.field("user_dir"@) is None ==> request.user_dir == 0,
        value.field("user_dir"@) is Some ==> wide_in(value.field("user_dir"@)) == Some(request.user_dir as int),
        value.field("seed"@) is None ==> request.seed == 7,
        value.field("seed"@) is Some ==> wide_in(value.field("seed"@)) == Some(request.seed as int),
        value.field("is_real"@) is None ==> request.is_real == 1,
        value.field("is_real"@) is Some ==> wide_in(value.field("is_real"@)) == Some(request.is_real as int),
        value.field("edabit"@) is None ==> request.edabit == defaults.edabit,
        value.field("edabit"@) is Some ==> value.field("edabit"@) == Some(Json::Bool(request.edabit)),
        value.field("audit_gates"@) is None ==> request.audit_gates == defaults.audit_gates,
        value.field("audit_gates"@) is Some ==> value.field("audit_gates"@) == Some(Json::Bool(request.audit_gates)),
        value.field("public_maker_assets"@) is None ==> request.public_maker_assets == defaults.public_maker_assets,
        value.field("public_maker_assets"@) is Some ==> value.field("public_maker_assets"@) == Some(
            Json::Bool(request.public_maker_assets),
        ),
        value.field("mode"@) is None ==> request.mode.name() == defaults.mode.name(),
        value.field("mode"@) is Some ==> text_in(value.field("mode"@)) == Some(request.mode.name()),
        value.field("disclose"@) is None ==> request.disclose.name() == defaults.disclose.name(),
        value.field("disclose"@) is Some ==> text_in(value.field("disclose"@)) == Some(request.disclose.name()),
        request.input_check,
        value.field("input_check"@) != Some(Json::Bool(false)),
        value.field("policies"@) is None || value.field("policies"@) == Some(Json::Null) <==> request.policies is None,
        request.policies is Some ==> value.field("policies"@) == Some((request.policies->0)@),
        value.field("ref_table"@) is None || value.field("ref_table"@) == Some(Json::Null) <==> request.ref_table
            is None,
        request.ref_table is Some ==> {
            &&& value.field("ref_table"@)->0 is Array
            &&& (value.field("ref_table"@)->0->Array_0).len() == (request.ref_table->0)@.len()
            &&& forall|i: int|
                0 <= i < (request.ref_table->0)@.len() ==> wide_in(
                    Some(value.field("ref_table"@)->0->Array_0[i]),
                ) == Some(#[trigger] (request.ref_table->0)@[i] as int)
        },
{
    assert(size_refusal(value, "n_mm"@) is None);
    assert(size_refusal(value, "n_parties"@) is None);
    assert(size_refusal(value, "rfs_steps"@) is None);
    assert(short_refusal(value, "bit_length"@) is None);
    assert(size_refusal(value, "argmin_arity"@) is None);
    assert(size_refusal(value, "n_assets"@) is None);
    assert(size_refusal(value, "n_requests"@) is None);
    assert(size_refusal(value, "threshold"@) is None);
    assert(size_refusal(value, "user_asset"@) is None);
    assert(wide_refusal(value, "user_qty"@) is None);
    assert(wide_refusal(value, "user_dir"@) is None);
    assert(wide_refusal(value, "seed"@) is None);
    assert(wide_refusal(value, "is_real"@) is None);
    assert(flag_refusal(value, "edabit"@) is None);
    assert(flag_refusal(value, "audit_gates"@) is None);
    assert(flag_refusal(value, "public_maker_assets"@) is None);
    assert(text_refusal(value, "mode"@) is None);
    assert(text_refusal(value, "disclose"@) is None);
    assert(flag_refusal(value, "input_check"@) is None);
    assert(table_refusal(value.field("ref_table"@)) is None);
    assert(policies_said(request.policies) == policies_in(value));
    if let Some(table) = request.ref_table {
        let values = value.field("ref_table"@)->0->Array_0;
        assert(table_said(request.ref_table) == Some(table@.map_values(|v: i128| v as int)));
        let said = values.map_values(|v: Json| wide_in(Some(v))->0);
        assert(table@.map_values(|v: i128| v as int) == said);
        assert(table@.map_values(|v: i128| v as int).len() == said.len());
        assert forall|i: int| 0 <= i < table@.len() implies wide_in(Some(values[i])) == Some(
            #[trigger] table@[i] as int,
        ) by {
            assert(wide_in(Some(values[i])) is Some);
            assert(table@.map_values(|v: i128| v as int)[i] == said[i]);
        }
    }
}

/// A request is read exactly where it is an object that does not switch its input check
/// off, and every member that it gives is of its kind.
pub proof fn request_is_read_exactly(value: Json, defaults: ProgramDefaults)
    ensures
        request_refusal(value, defaults) is None <==> {
            &&& value is Object
            &&& text_refusal(value, "mode"@) is None && text_refusal(value, "disclose"@) is None
            &&& value.field("input_check"@) is None || value.field("input_check"@) == Some(Json::Bool(true))
            &&& exists|m: Mode| #[trigger] m.name() == text_field(value, "mode"@, defaults.mode.name())
            &&& exists|d: Disclosure| #[trigger]
                d.name() == text_field(value, "disclose"@, defaults.disclose.name())
            &&& value.field("n_mm"@) is None || (unsigned_in(value.field("n_mm"@)) is Some && unsigned_in(
                value.field("n_mm"@),
            )->0 <= usize::MAX)
            &&& value.field("n_parties"@) is None || (unsigned_in(value.field("n_parties"@)) is Some && unsigned_in(
                value.field("n_parties"@),
            )->0 <= usize::MAX)
            &&& value.field("rfs_steps"@) is None || (unsigned_in(value.field("rfs_steps"@)) is Some && unsigned_in(
                value.field("rfs_steps"@),
            )->0 <= usize::MAX)
            &&& value.field("bit_length"@) is None || (unsigned_in(value.field("bit_length"@)) is Some && unsigned_in(
                value.field("bit_length"@),
            )->0 <= 0xffff_ffff)
            &&& value.field("argmin_arity"@) is None || (unsigned_in(value.field("argmin_arity"@)) is Some
            && unsigned_in(
                value.field("argmin_arity"@),
            )->0 <= usize::MAX)
            &&& value.field("n_assets"@) is None || (unsigned_in(value.field("n_assets"@)) is Some && unsigned_in(
                value.field("n_assets"@),
            )->0 <= usize::MAX)
            &&& value.field("n_requests"@) is None || (unsigned_in(value.field("n_requests"@)) is Some && unsigned_in(
                value.field("n_requests"@),
            )->0 <= usize::MAX)
            &&& value.field("threshold"@) is None || (unsigned_in(value.field("threshold"@)) is Some && unsigned_in(
                value.field("threshold"@),
            )->0 <= usize::MAX)
            &&& value.field("user_asset"@) is None || (unsigned_in(value.field("user_asset"@)) is Some && unsigned_in(
                value.field("user_asset"@),
            )->0 <= usize::MAX)
            &&& value.field("user_qty"@) is None || wide_in(value.field("user_qty"@)) is Some
            &&& value.field("user_dir"@) is None || wide_in(value.field("user_dir"@)) is Some
            &&& value.field("seed"@) is None || wide_in(value.field("seed"@)) is Some
            &&& value.field("is_real"@) is None || wide_in(value.field("is_real"@)) is Some
            &&& value.field("edabit"@) is None || value.field("edabit"@)->0 is Bool
            &&& value.field("audit_gates"@) is None || value.field("audit_gates"@)->0 is Bool
            &&& value.field("public_maker_assets"@) is None || value.field("public_maker_assets"@)->0 is Bool
            &&& number_refusal(value, "delay_ms"@) is None
            &&& table_refusal(value.field("ref_table"@)) is None
        },
{
    assert(flag_refusal(value, "input_check"@) is None && flag_field(value, "input_check"@, true) <==> value.field(
        "input_check"@,
    ) is None || value.field("input_check"@) == Some(Json::Bool(true)));
    assert(request_refusal(value, defaults) is None <==> header_refusal(value) is None && circuit_refusal(
        value,
        defaults,
    ) is None && input_refusal(value) is None);
}

/// Two requests have the same shape only if they agree in everything that a circuit is
/// compiled for.
pub proof fn shape_is_of_the_whole_circuit(one: Request, two: Request)
    requires
        one.shape_json() == two.shape_json(),
    ensures
        one.n_mm == two.n_mm && one.n_parties == two.n_parties,
        one.mode == two.mode && one.rfs_steps == two.rfs_steps && one.disclose == two.disclose,
        one.bit_length == two.bit_length && one.argmin_arity == two.argmin_arity,
        one.n_assets == two.n_assets && one.n_requests == two.n_requests,
        one.edabit == two.edabit && one.audit_gates == two.audit_gates,
        one.public_maker_assets == two.public_maker_assets && one.input_check == two.input_check,
        one.threshold == two.threshold,
        table_said(one.ref_table) == table_said(two.ref_table),
{
    let a = one.shape_json()->Array_0;
    let b = two.shape_json()->Array_0;
    assert(forall|i: int| 0 <= i < 15 ==> a[i]->Array_0[1] == b[i]->Array_0[1]);
    assert(a[0]->Array_0[1] == Json::Integer(one.n_mm as int));
    assert(a[1]->Array_0[1] == Json::Integer(one.n_parties as int));
    assert(a[2]->Array_0[1] == Json::Text(one.mode.name()));
    assert(a[3]->Array_0[1] == Json::Integer(one.rfs_steps as int));
    assert(a[4]->Array_0[1] == Json::Text(one.disclose.name()));
    assert(a[5]->Array_0[1] == Json::Integer(one.bit_length as int));
    assert(a[6]->Array_0[1] == Json::Integer(one.argmin_arity as int));
    assert(a[7]->Array_0[1] == Json::Integer(one.n_assets as int));
    assert(a[8]->Array_0[1] == Json::Integer(one.n_requests as int));
    assert(a[9]->Array_0[1] == Json::Bool(one.edabit));
    assert(a[10]->Array_0[1] == Json::Bool(one.audit_gates));
    assert(a[11]->Array_0[1] == Json::Bool(one.public_maker_assets));
    assert(a[12]->Array_0[1] == Json::Bool(one.input_check));
    assert(a[13]->Array_0[1] == Json::Integer(one.threshold as int));
    assert(a[14]->Array_0[1] == table_json(table_said(one.ref_table)));
    reveal_strlit("rfq");
    reveal_strlit("rfm");
    reveal_strlit("rfs");
    reveal_strlit("none");
    reveal_strlit("threshold");
    assert("rfq"@[2] == 'q' && "rfm"@[2] == 'm' && "rfs"@[2] == 's');
    assert("none"@.len() == 4 && "threshold"@.len() == 9);
    table_is_told_whole(table_said(one.ref_table), table_said(two.ref_table));
}

proof fn table_is_told_whole(one: Option<Seq<int>>, two: Option<Seq<int>>)
    requires
        table_json(one) == table_json(two),
    ensures
        one == two,
{
    if one is Some && two is Some {
        let a = (one->0).map_values(|v: int| Json::Integer(v));
        let b = (two->0).map_values(|v: int| Json::Integer(v));
        assert(a == b);
        assert(a.len() == b.len());
        assert forall|i: int| 0 <= i < (one->0).len() implies (one->0)[i] == (two->0)[i] by {
            assert(a[i] == b[i]);
        }
        assert(one->0 =~= two->0);
    }
}

/// An approval is read exactly where it is an object with a name, a digest and a shape.
pub proof fn approval_is_read_exactly(value: Json)
    ensures
        approval_refusal(value) is None <==> value is Object && text_in(value.field("name"@)) is Some && text_in(
            value.field("program_digest"@),
        ) is Some && value.field("shape"@) is Some,
{
}

/// The approval of a shape is the first that has it.
pub proof fn approval_is_the_first_of_its_shape(approvals: Seq<Approval>, shape: Json)
    ensures
        approved_at(approvals, shape) matches Some(at) ==> 0 <= at < approvals.len() && approvals[at].shape@ == shape
            && forall|i: int| 0 <= i < at ==> (#[trigger] approvals[i]).shape@ != shape,
        approved_at(approvals, shape) is None <==> forall|i: int|
            0 <= i < approvals.len() ==> (#[trigger] approvals[i]).shape@ != shape,
    decreases approvals.len(),
{
    if approvals.len() > 0 {
        let fewer = approvals.drop_last();
        approval_is_the_first_of_its_shape(fewer, shape);
        assert forall|i: int| 0 <= i < fewer.len() implies fewer[i] == #[trigger] approvals[i] by {}
        if forall|i: int| 0 <= i < approvals.len() ==> (#[trigger] approvals[i]).shape@ != shape {
            assert forall|i: int| 0 <= i < fewer.len() implies (#[trigger] fewer[i]).shape@ != shape by {
                assert(fewer[i] == approvals[i]);
            }
            assert(approvals[approvals.len() - 1].shape@ != shape);
        }
        if approved_at(approvals, shape) is None {
            assert forall|i: int| 0 <= i < approvals.len() implies (#[trigger] approvals[i]).shape@ != shape by {
                if i < fewer.len() {
                    assert(fewer[i].shape@ != shape);
                }
            }
        }
        if let Some(at) = approved_at(fewer, shape) {
            assert(approvals[at].shape@ == shape);
            assert forall|i: int| 0 <= i < at implies (#[trigger] approvals[i]).shape@ != shape by {
                assert(fewer[i].shape@ != shape);
            }
        }
    }
}

/// Where circuits have to be approved, one is compiled exactly where the first approval of
/// its shape names the digest of the program.
pub proof fn only_approved_programs_are_compiled(
    request: Request,
    approvals: Seq<Approval>,
    program_digest: Seq<char>,
)
    ensures
        request.compile_refusal(None, program_digest) is None,
        request.compile_refusal(Some(approvals), program_digest) is None <==> exists|at: int|
            0 <= at < approvals.len() && (#[trigger] approvals[at]).shape@ == request.shape_json()
                && approvals[at].program_digest@ == program_digest && forall|i: int|
                0 <= i < at ==> (#[trigger] approvals[i]).shape@ != request.shape_json(),
{
    approval_is_the_first_of_its_shape(approvals, request.shape_json());
    if let Some(at) = approved_at(approvals, request.shape_json()) {
        assert(approvals[at].shape@ == request.shape_json());
    }
}

} // verus!
