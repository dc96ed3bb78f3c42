use pterodactil::family::{Family, FamilyMember, FamilyT, Member, MemberT};
use pterodactil::io::{ReadResult, ReadResultF};

fn same_family<M: Member<Family = F>, F: Family>(_m: &M) -> bool {
    true
}

#[test]
fn member_t_wraps_its_value() {
    let m: MemberT<u32> = MemberT::from(7u32);
    assert_eq!(m.0, 7);
    assert!(same_family::<MemberT<u32>, FamilyT<u32>>(&m));
    let member: FamilyMember<'static, FamilyT<u32>> = FamilyMember(MemberT(9));
    assert_eq!((member.0).0, 9);
}

#[test]
fn read_results_form_a_family() {
    let data = vec![1u8, 2];
    let r: <ReadResultF as Family>::Member<'_> = Ok(data.as_slice());
    let read: ReadResult<'_> = r;
    assert_eq!(read.ok(), Some(&[1u8, 2][..]));
}
