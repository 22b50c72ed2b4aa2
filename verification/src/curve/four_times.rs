use crate::curve::affine::extended_of;
use crate::curve::extended_edwards::{identity_view, point_add, point_mul, same_point, PointView};
use crate::curve::field::field_element::{fadd, fmul, fsub};
use crate::curve::laws::lemma_two_times;
use crate::curve::params::EdCurves;
use vstd::prelude::*;

verus! {

/// Twice the generator of E448, coordinate by coordinate.
proof fn lemma_e448_twice()
    ensures
        point_add(
            extended_of(EdCurves::E448.spec_gx(), EdCurves::E448.spec_gy(), EdCurves::E448.spec_p()),
            extended_of(EdCurves::E448.spec_gx(), EdCurves::E448.spec_gy(), EdCurves::E448.spec_p()),
            EdCurves::E448.spec_p(),
            EdCurves::E448.spec_d(),
        ) == (PointView {
            x: 0x46787345e135289124c42a1bc052bdf27ef42e4018511356aed4b9852dbf9f3268d1841cb9c391c430b8ec22e0c2052624bf17c4ddf40efanat,
            y: 0xacc0e7f4cd9e95088acbad5c9bc5c67357349230c03b3020847b9d27ecfe832e26101041478c82cb32cc8c32678dfb36c9ea9ebb08a46895nat,
            z: 0x35fe40e7e4591b503d02fd7e4e04bc5797eebb369345408df9e928bbe0fe8b8346ceda15fd0ba9c95609ed87593d8283dad5ebe91ee119e0nat,
            t: 0xbfd4237a51f3e97596eb623e729ac19d4dd0fcb39cf2be5eeb8a32d26254f0b8cb1d0a422aa2f32df927f5ab27e179a66d0d73e33c9e12bnat,
        }),
{
    let p = EdCurves::E448.spec_p();
    assert(fmul(0x8nat, 0xc66f6f0565e6d0b5f2bb263cebb9f8540eb046f40ed0fff7f84d84653b428d989aabff93b6bf700801228094e3dd0c2d1c600e3b0bccfc32nat, p) == 0x337b782b2f3685af95d931e75dcfc2a0758237a07687ffbfc26c232fda146cc4d55ffc9db5fb8040091404a71ee86168e30071d85e67e196nat) by (nonlinear_arith)
        requires
            p == 0xfffffffffffffffffffffffffffffffffffffffffffffffffffffffeffffffffffffffffffffffffffffffffffffffffffffffffffffffffnat,
    ;
    assert(fmul(0x8nat, 0x8nat, p) == 0x40nat) by (nonlinear_arith)
        requires
            p == 0xfffffffffffffffffffffffffffffffffffffffffffffffffffffffeffffffffffffffffffffffffffffffffffffffffffffffffffffffffnat,
    ;
    assert(fmul(0xc66f6f0565e6d0b5f2bb263cebb9f8540eb046f40ed0fff7f84d84653b428d989aabff93b6bf700801228094e3dd0c2d1c600e3b0bccfc32nat, 0xc66f6f0565e6d0b5f2bb263cebb9f8540eb046f40ed0fff7f84d84653b428d989aabff93b6bf700801228094e3dd0c2d1c600e3b0bccfc32nat, p) == 0xfc2b2e67e634e4300eab0ee5e1b337d9d16756c03221853370c64fb2067dfdda053b2ee6ed2b7d9d4c1ece45a30a9351d1fe78cdef6eaf79nat) by (nonlinear_arith)
        requires
            p == 0xfffffffffffffffffffffffffffffffffffffffffffffffffffffffeffffffffffffffffffffffffffffffffffffffffffffffffffffffffnat,
    ;
    assert(fmul(0x337b782b2f3685af95d931e75dcfc2a0758237a07687ffbfc26c232fda146cc4d55ffc9db5fb8040091404a71ee86168e30071d85e67e196nat, 0x337b782b2f3685af95d931e75dcfc2a0758237a07687ffbfc26c232fda146cc4d55ffc9db5fb8040091404a71ee86168e30071d85e67e196nat, p) == 0xacb99f98d390c03aac3b9786ccdf67459d5b00c88614cdc3193ecc09f7f76814ecbb9bb4adf675307b39168c2a4d4747f9e337bdbabde7fnat) by (nonlinear_arith)
        requires
            p == 0xfffffffffffffffffffffffffffffffffffffffffffffffffffffffeffffffffffffffffffffffffffffffffffffffffffffffffffffffffnat,
    ;
    assert(fmul(0xfffffffffffffffffffffffffffffffffffffffffffffffffffffffeffffffffffffffffffffffffffffffffffffffffffffffffffff6756nat, 0xacb99f98d390c03aac3b9786ccdf67459d5b00c88614cdc3193ecc09f7f76814ecbb9bb4adf675307b39168c2a4d4747f9e337bdbabde7fnat, p) == 0xfc2b2e67e634e4300eab0ee5e1b337d9d16756c03221853370c64fb2067dfdda053b2ee6ed2b7d9d4c1ece45a30a9351d1fe78cdef6eafb8nat) by (nonlinear_arith)
        requires
            p == 0xfffffffffffffffffffffffffffffffffffffffffffffffffffffffeffffffffffffffffffffffffffffffffffffffffffffffffffffffffnat,
    ;
    assert(fmul(0x1nat, 0x1nat, p) == 0x1nat) by (nonlinear_arith)
        requires
            p == 0xfffffffffffffffffffffffffffffffffffffffffffffffffffffffeffffffffffffffffffffffffffffffffffffffffffffffffffffffffnat,
    ;
    assert(fadd(0x8nat, 0xc66f6f0565e6d0b5f2bb263cebb9f8540eb046f40ed0fff7f84d84653b428d989aabff93b6bf700801228094e3dd0c2d1c600e3b0bccfc32nat, p) == 0xc66f6f0565e6d0b5f2bb263cebb9f8540eb046f40ed0fff7f84d84653b428d989aabff93b6bf700801228094e3dd0c2d1c600e3b0bccfc3anat) by (nonlinear_arith)
        requires
            p == 0xfffffffffffffffffffffffffffffffffffffffffffffffffffffffeffffffffffffffffffffffffffffffffffffffffffffffffffffffffnat,
    ;
    assert(fmul(0xc66f6f0565e6d0b5f2bb263cebb9f8540eb046f40ed0fff7f84d84653b428d989aabff93b6bf700801228094e3dd0c2d1c600e3b0bccfc3anat, 0xc66f6f0565e6d0b5f2bb263cebb9f8540eb046f40ed0fff7f84d84653b428d989aabff93b6bf700801228094e3dd0c2d1c600e3b0bccfc3anat, p) == 0x63221ebe44a1ef8f3a5d72b49d52bd1abc6bc6011f3184b2f59e9612baa6d763affb282259227e1d5e46d793e0db562397ff5c7eac3e72e6nat) by (nonlinear_arith)
        requires
            p == 0xfffffffffffffffffffffffffffffffffffffffffffffffffffffffeffffffffffffffffffffffffffffffffffffffffffffffffffffffffnat,
    ;
    assert(fsub(0x63221ebe44a1ef8f3a5d72b49d52bd1abc6bc6011f3184b2f59e9612baa6d763affb282259227e1d5e46d793e0db562397ff5c7eac3e72e6nat, 0x40nat, p) == 0x63221ebe44a1ef8f3a5d72b49d52bd1abc6bc6011f3184b2f59e9612baa6d763affb282259227e1d5e46d793e0db562397ff5c7eac3e72a6nat) by (nonlinear_arith)
        requires
            p == 0xfffffffffffffffffffffffffffffffffffffffffffffffffffffffeffffffffffffffffffffffffffffffffffffffffffffffffffffffffnat,
    ;
    assert(fsub(0x63221ebe44a1ef8f3a5d72b49d52bd1abc6bc6011f3184b2f59e9612baa6d763affb282259227e1d5e46d793e0db562397ff5c7eac3e72a6nat, 0xfc2b2e67e634e4300eab0ee5e1b337d9d16756c03221853370c64fb2067dfdda053b2ee6ed2b7d9d4c1ece45a30a9351d1fe78cdef6eaf79nat, p) == 0x66f6f0565e6d0b5f2bb263cebb9f8540eb046f40ed0fff7f84d8465fb428d989aabff93b6bf700801228094e3dd0c2d1c600e3b0bccfc32cnat) by (nonlinear_arith)
        requires
            p == 0xfffffffffffffffffffffffffffffffffffffffffffffffffffffffeffffffffffffffffffffffffffffffffffffffffffffffffffffffffnat,
    ;
    assert(fsub(0x1nat, 0xfc2b2e67e634e4300eab0ee5e1b337d9d16756c03221853370c64fb2067dfdda053b2ee6ed2b7d9d4c1ece45a30a9351d1fe78cdef6eafb8nat, p) == 0x3d4d19819cb1bcff154f11a1e4cc8262e98a93fcdde7acc8f39b04cf9820225fac4d11912d48262b3e131ba5cf56cae2e01873210915048nat) by (nonlinear_arith)
        requires
            p == 0xfffffffffffffffffffffffffffffffffffffffffffffffffffffffeffffffffffffffffffffffffffffffffffffffffffffffffffffffffnat,
    ;
    assert(fadd(0x1nat, 0xfc2b2e67e634e4300eab0ee5e1b337d9d16756c03221853370c64fb2067dfdda053b2ee6ed2b7d9d4c1ece45a30a9351d1fe78cdef6eafb8nat, p) == 0xfc2b2e67e634e4300eab0ee5e1b337d9d16756c03221853370c64fb2067dfdda053b2ee6ed2b7d9d4c1ece45a30a9351d1fe78cdef6eafb9nat) by (nonlinear_arith)
        requires
            p == 0xfffffffffffffffffffffffffffffffffffffffffffffffffffffffeffffffffffffffffffffffffffffffffffffffffffffffffffffffffnat,
    ;
    assert(fsub(0xfc2b2e67e634e4300eab0ee5e1b337d9d16756c03221853370c64fb2067dfdda053b2ee6ed2b7d9d4c1ece45a30a9351d1fe78cdef6eaf79nat, 0x40nat, p) == 0xfc2b2e67e634e4300eab0ee5e1b337d9d16756c03221853370c64fb2067dfdda053b2ee6ed2b7d9d4c1ece45a30a9351d1fe78cdef6eaf39nat) by (nonlinear_arith)
        requires
            p == 0xfffffffffffffffffffffffffffffffffffffffffffffffffffffffeffffffffffffffffffffffffffffffffffffffffffffffffffffffffnat,
    ;
    assert(fmul(0x66f6f0565e6d0b5f2bb263cebb9f8540eb046f40ed0fff7f84d8465fb428d989aabff93b6bf700801228094e3dd0c2d1c600e3b0bccfc32cnat, 0x3d4d19819cb1bcff154f11a1e4cc8262e98a93fcdde7acc8f39b04cf9820225fac4d11912d48262b3e131ba5cf56cae2e01873210915048nat, p) == 0x46787345e135289124c42a1bc052bdf27ef42e4018511356aed4b9852dbf9f3268d1841cb9c391c430b8ec22e0c2052624bf17c4ddf40efanat) by (nonlinear_arith)
        requires
            p == 0xfffffffffffffffffffffffffffffffffffffffffffffffffffffffeffffffffffffffffffffffffffffffffffffffffffffffffffffffffnat,
    ;
    assert(fmul(0xfc2b2e67e634e4300eab0ee5e1b337d9d16756c03221853370c64fb2067dfdda053b2ee6ed2b7d9d4c1ece45a30a9351d1fe78cdef6eafb9nat, 0xfc2b2e67e634e4300eab0ee5e1b337d9d16756c03221853370c64fb2067dfdda053b2ee6ed2b7d9d4c1ece45a30a9351d1fe78cdef6eaf39nat, p) == 0xacc0e7f4cd9e95088acbad5c9bc5c67357349230c03b3020847b9d27ecfe832e26101041478c82cb32cc8c32678dfb36c9ea9ebb08a46895nat) by (nonlinear_arith)
        requires
            p == 0xfffffffffffffffffffffffffffffffffffffffffffffffffffffffeffffffffffffffffffffffffffffffffffffffffffffffffffffffffnat,
    ;
    assert(fmul(0x3d4d19819cb1bcff154f11a1e4cc8262e98a93fcdde7acc8f39b04cf9820225fac4d11912d48262b3e131ba5cf56cae2e01873210915048nat, 0xfc2b2e67e634e4300eab0ee5e1b337d9d16756c03221853370c64fb2067dfdda053b2ee6ed2b7d9d4c1ece45a30a9351d1fe78cdef6eafb9nat, p) == 0x35fe40e7e4591b503d02fd7e4e04bc5797eebb369345408df9e928bbe0fe8b8346ceda15fd0ba9c95609ed87593d8283dad5ebe91ee119e0nat) by (nonlinear_arith)
        requires
            p == 0xfffffffffffffffffffffffffffffffffffffffffffffffffffffffeffffffffffffffffffffffffffffffffffffffffffffffffffffffffnat,
    ;
    assert(fmul(0x66f6f0565e6d0b5f2bb263cebb9f8540eb046f40ed0fff7f84d8465fb428d989aabff93b6bf700801228094e3dd0c2d1c600e3b0bccfc32cnat, 0xfc2b2e67e634e4300eab0ee5e1b337d9d16756c03221853370c64fb2067dfdda053b2ee6ed2b7d9d4c1ece45a30a9351d1fe78cdef6eaf39nat, p) == 0xbfd4237a51f3e97596eb623e729ac19d4dd0fcb39cf2be5eeb8a32d26254f0b8cb1d0a422aa2f32df927f5ab27e179a66d0d73e33c9e12bnat) by (nonlinear_arith)
        requires
            p == 0xfffffffffffffffffffffffffffffffffffffffffffffffffffffffeffffffffffffffffffffffffffffffffffffffffffffffffffffffffnat,
    ;
}

/// The first coordinate of four times the generator of E448 is not zero.
proof fn lemma_e448_four_times()
    ensures
        point_add(
            PointView {
                x: 0x46787345e135289124c42a1bc052bdf27ef42e4018511356aed4b9852dbf9f3268d1841cb9c391c430b8ec22e0c2052624bf17c4ddf40efanat,
                y: 0xacc0e7f4cd9e95088acbad5c9bc5c67357349230c03b3020847b9d27ecfe832e26101041478c82cb32cc8c32678dfb36c9ea9ebb08a46895nat,
                z: 0x35fe40e7e4591b503d02fd7e4e04bc5797eebb369345408df9e928bbe0fe8b8346ceda15fd0ba9c95609ed87593d8283dad5ebe91ee119e0nat,
                t: 0xbfd4237a51f3e97596eb623e729ac19d4dd0fcb39cf2be5eeb8a32d26254f0b8cb1d0a422aa2f32df927f5ab27e179a66d0d73e33c9e12bnat,
            },
            PointView {
                x: 0x46787345e135289124c42a1bc052bdf27ef42e4018511356aed4b9852dbf9f3268d1841cb9c391c430b8ec22e0c2052624bf17c4ddf40efanat,
                y: 0xacc0e7f4cd9e95088acbad5c9bc5c67357349230c03b3020847b9d27ecfe832e26101041478c82cb32cc8c32678dfb36c9ea9ebb08a46895nat,
                z: 0x35fe40e7e4591b503d02fd7e4e04bc5797eebb369345408df9e928bbe0fe8b8346ceda15fd0ba9c95609ed87593d8283dad5ebe91ee119e0nat,
                t: 0xbfd4237a51f3e97596eb623e729ac19d4dd0fcb39cf2be5eeb8a32d26254f0b8cb1d0a422aa2f32df927f5ab27e179a66d0d73e33c9e12bnat,
            },
            EdCurves::E448.spec_p(),
            EdCurves::E448.spec_d(),
        ).x == 0x88b8a525c6f8252846f051e45ef7d331794b010fb03052923132023deeb7660121b4c834680553776c5a1472d79cee4ecf79fc7c0a8cf3b0nat,
{
    let p = EdCurves::E448.spec_p();
    assert(fmul(0x46787345e135289124c42a1bc052bdf27ef42e4018511356aed4b9852dbf9f3268d1841cb9c391c430b8ec22e0c2052624bf17c4ddf40efanat, 0x46787345e135289124c42a1bc052bdf27ef42e4018511356aed4b9852dbf9f3268d1841cb9c391c430b8ec22e0c2052624bf17c4ddf40efanat, p) == 0x273023e463052452985cd07722ce52e144cf81e72bf0de2c03538ee7591e4271609d6659ab4b8394201d4845db0b2f53cf22655d6fbd0adnat) by (nonlinear_arith)
        requires
            p == 0xfffffffffffffffffffffffffffffffffffffffffffffffffffffffeffffffffffffffffffffffffffffffffffffffffffffffffffffffffnat,
    ;
    assert(fmul(0xacc0e7f4cd9e95088acbad5c9bc5c67357349230c03b3020847b9d27ecfe832e26101041478c82cb32cc8c32678dfb36c9ea9ebb08a46895nat, 0xacc0e7f4cd9e95088acbad5c9bc5c67357349230c03b3020847b9d27ecfe832e26101041478c82cb32cc8c32678dfb36c9ea9ebb08a46895nat, p) == 0x7f2ed64bcde2ecc93e945f544265a9d6b484338fbbe06c712c85dae491a21445d87fd51b8e680aed3d4ca2e284dd667f861a571002f0ac23nat) by (nonlinear_arith)
        requires
            p == 0xfffffffffffffffffffffffffffffffffffffffffffffffffffffffeffffffffffffffffffffffffffffffffffffffffffffffffffffffffnat,
    ;
    assert(fmul(0xbfd4237a51f3e97596eb623e729ac19d4dd0fcb39cf2be5eeb8a32d26254f0b8cb1d0a422aa2f32df927f5ab27e179a66d0d73e33c9e12bnat, 0xbfd4237a51f3e97596eb623e729ac19d4dd0fcb39cf2be5eeb8a32d26254f0b8cb1d0a422aa2f32df927f5ab27e179a66d0d73e33c9e12bnat, p) == 0x9fcc4e723c1b38150d88eddd2dcdc5780dca2c3d2e7dae7c47f57833f25313d58834e56e199b89263b0cc313036b4ee8c79cc184e5048ed9nat) by (nonlinear_arith)
        requires
            p == 0xfffffffffffffffffffffffffffffffffffffffffffffffffffffffeffffffffffffffffffffffffffffffffffffffffffffffffffffffffnat,
    ;
    assert(fmul(0xfffffffffffffffffffffffffffffffffffffffffffffffffffffffeffffffffffffffffffffffffffffffffffffffffffffffffffff6756nat, 0x9fcc4e723c1b38150d88eddd2dcdc5780dca2c3d2e7dae7c47f57833f25313d58834e56e199b89263b0cc313036b4ee8c79cc184e5048ed9nat, p) == 0x338c62e628bb7a10c35fa5ca95e95b8edb447801af6e053abf946e88b3611f29acdb2b1cbee3c2b370bfee6b074eb1cf269d574a1b2c7b74nat) by (nonlinear_arith)
        requires
            p == 0xfffffffffffffffffffffffffffffffffffffffffffffffffffffffeffffffffffffffffffffffffffffffffffffffffffffffffffffffffnat,
    ;
    assert(fmul(0x35fe40e7e4591b503d02fd7e4e04bc5797eebb369345408df9e928bbe0fe8b8346ceda15fd0ba9c95609ed87593d8283dad5ebe91ee119e0nat, 0x35fe40e7e4591b503d02fd7e4e04bc5797eebb369345408df9e928bbe0fe8b8346ceda15fd0ba9c95609ed87593d8283dad5ebe91ee119e0nat, p) == 0x4e1575a3eb57c4fda4ba86911ea93375ed8cb3ac7f3175192d26a54a53d2d94341ae80646a3900730e8e88fbdb3f67a59c6f261bbec0015cnat) by (nonlinear_arith)
        requires
            p == 0xfffffffffffffffffffffffffffffffffffffffffffffffffffffffeffffffffffffffffffffffffffffffffffffffffffffffffffffffffnat,
    ;
    assert(fadd(0x46787345e135289124c42a1bc052bdf27ef42e4018511356aed4b9852dbf9f3268d1841cb9c391c430b8ec22e0c2052624bf17c4ddf40efanat, 0xacc0e7f4cd9e95088acbad5c9bc5c67357349230c03b3020847b9d27ecfe832e26101041478c82cb32cc8c32678dfb36c9ea9ebb08a46895nat, p) == 0xf3395b3aaed3bd99af8fd7785c188465d628c070d88c4377335056ad1abe22608ee1945e0150148f638578554850005ceea9b67fe698778fnat) by (nonlinear_arith)
        requires
            p == 0xfffffffffffffffffffffffffffffffffffffffffffffffffffffffeffffffffffffffffffffffffffffffffffffffffffffffffffffffffnat,
    ;
    assert(fmul(0xf3395b3aaed3bd99af8fd7785c188465d628c070d88c4377335056ad1abe22608ee1945e0150148f638578554850005ceea9b67fe698778fnat, 0xf3395b3aaed3bd99af8fd7785c188465d628c070d88c4377335056ad1abe22608ee1945e0150148f638578554850005ceea9b67fe698778fnat, p) == 0x52d1ccd60ac4529cab50107c2b225c93b6d9ba6aa50710c33735203416b66863144aebe06369c4f78a3ad6d4509b255d9642630170874118nat) by (nonlinear_arith)
        requires
            p == 0xfffffffffffffffffffffffffffffffffffffffffffffffffffffffeffffffffffffffffffffffffffffffffffffffffffffffffffffffffnat,
    ;
    assert(fsub(0x52d1ccd60ac4529cab50107c2b225c93b6d9ba6aa50710c33735203416b66863144aebe06369c4f78a3ad6d4509b255d9642630170874118nat, 0x273023e463052452985cd07722ce52e144cf81e72bf0de2c03538ee7591e4271609d6659ab4b8394201d4845db0b2f53cf22655d6fbd0adnat, p) == 0x505eca97c494005781ca4374b8f57765a28cc24c324802e076ffe745a124843bfe41157ac8b50cbe4839024ff2ea726859503cab998b706bnat) by (nonlinear_arith)
        requires
            p == 0xfffffffffffffffffffffffffffffffffffffffffffffffffffffffeffffffffffffffffffffffffffffffffffffffffffffffffffffffffnat,
    ;
    assert(fsub(0x505eca97c494005781ca4374b8f57765a28cc24c324802e076ffe745a124843bfe41157ac8b50cbe4839024ff2ea726859503cab998b706bnat, 0x7f2ed64bcde2ecc93e945f544265a9d6b484338fbbe06c712c85dae491a21445d87fd51b8e680aed3d4ca2e284dd667f861a571002f0ac23nat, p) == 0xd12ff44bf6b1138e4335e420768fcd8eee088ebc7667966f4a7a0c600f826ff625c1405f3a4d01d10aec5f6d6e0d0be8d335e59b969ac447nat) by (nonlinear_arith)
        requires
            p == 0xfffffffffffffffffffffffffffffffffffffffffffffffffffffffeffffffffffffffffffffffffffffffffffffffffffffffffffffffffnat,
    ;
    assert(fsub(0x4e1575a3eb57c4fda4ba86911ea93375ed8cb3ac7f3175192d26a54a53d2d94341ae80646a3900730e8e88fbdb3f67a59c6f261bbec0015cnat, 0x338c62e628bb7a10c35fa5ca95e95b8edb447801af6e053abf946e88b3611f29acdb2b1cbee3c2b370bfee6b074eb1cf269d574a1b2c7b74nat, p) == 0x1a8912bdc29c4aece15ae0c688bfd7e712483baacfc36fde6d9236c1a071ba1994d35547ab553dbf9dce9a90d3f0b5d675d1ced1a39385e8nat) by (nonlinear_arith)
        requires
            p == 0xfffffffffffffffffffffffffffffffffffffffffffffffffffffffeffffffffffffffffffffffffffffffffffffffffffffffffffffffffnat,
    ;
    assert(fmul(0xd12ff44bf6b1138e4335e420768fcd8eee088ebc7667966f4a7a0c600f826ff625c1405f3a4d01d10aec5f6d6e0d0be8d335e59b969ac447nat, 0x1a8912bdc29c4aece15ae0c688bfd7e712483baacfc36fde6d9236c1a071ba1994d35547ab553dbf9dce9a90d3f0b5d675d1ced1a39385e8nat, p) == 0x88b8a525c6f8252846f051e45ef7d331794b010fb03052923132023deeb7660121b4c834680553776c5a1472d79cee4ecf79fc7c0a8cf3b0nat) by (nonlinear_arith)
        requires
            p == 0xfffffffffffffffffffffffffffffffffffffffffffffffffffffffeffffffffffffffffffffffffffffffffffffffffffffffffffffffffnat,
    ;
}

/// Twice the generator of E521, coordinate by coordinate.
proof fn lemma_e521_twice()
    ensures
        point_add(
            extended_of(EdCurves::E521.spec_gx(), EdCurves::E521.spec_gy(), EdCurves::E521.spec_p()),
            extended_of(EdCurves::E521.spec_gx(), EdCurves::E521.spec_gy(), EdCurves::E521.spec_p()),
            EdCurves::E521.spec_p(),
            EdCurves::E521.spec_d(),
        ) == (PointView {
            x: 0xa7b8ad13273967f045760ad262b4c4c830f65f186d581c58803d1faf159540092caf8e07c083c8869f994d3bb4237f76781121ed6132f458a0940e87c039fd5de0nat,
            y: 0x58ef66005f66ed741cf21f3b326d6110ee7c0708bd88b6933aca8940e2edadae650f5c7628484a3df5de48b0679e57e8ca966ddd715fad0737ca0c17e6112fd134nat,
            z: 0xab651e02e841aeada84f8f4c693c6f4f2f503981c6ea9ea7c1b797249a768db774e1ed4a529c28e2c204d1c9853391d2c5e381957b3a43775a2dccde7ccfa709anat,
            t: 0x160de07103709bdf2561e6ec88138c28a9a8741f0cf335ee1bb0857980431d683c29af4ff063c11d5257aabd09529a8f729890db5b522cade2e5a389d0f3b8ca659nat,
        }),
{
    let p = EdCurves::E521.spec_p();
    assert(fmul(0x4nat, 0x11dd4b4952f9b741bdb15c806d24013b3ebf3be43295904d1e4050b3c80f5920a145616ebb481557d7bfa955cbfb1cfd4e064b0de40f93e22f8bcdfb41d0093b10cnat, p) == 0x7752d254be6dd06f6c57201b49004ecfafcef90ca564134790142cf203d6482851585baed20555f5efea5572fec73f538192c37903e4f88be2f37ed074024ec432nat) by (nonlinear_arith)
        requires
            p == 0x1ffffffffffffffffffffffffffffffffffffffffffffffffffffffffffffffffffffffffffffffffffffffffffffffffffffffffffffffffffffffffffffffffffnat,
    ;
    assert(fmul(0x4nat, 0x4nat, p) == 0x10nat) by (nonlinear_arith)
        requires
            p == 0x1ffffffffffffffffffffffffffffffffffffffffffffffffffffffffffffffffffffffffffffffffffffffffffffffffffffffffffffffffffffffffffffffffffnat,
    ;
    assert(fmul(0x11dd4b4952f9b741bdb15c806d24013b3ebf3be43295904d1e4050b3c80f5920a145616ebb481557d7bfa955cbfb1cfd4e064b0de40f93e22f8bcdfb41d0093b10cnat, 0x11dd4b4952f9b741bdb15c806d24013b3ebf3be43295904d1e4050b3c80f5920a145616ebb481557d7bfa955cbfb1cfd4e064b0de40f93e22f8bcdfb41d0093b10cnat, p) == 0x6314137883cd7fb89159e598003bb1ddabaf6e943d00499568d6331c292e3afb67967be3e815cc5f9877838a3bbc36e6338060de2c7f5b2893d1b3f8570120b97anat) by (nonlinear_arith)
        requires
            p == 0x1ffffffffffffffffffffffffffffffffffffffffffffffffffffffffffffffffffffffffffffffffffffffffffffffffffffffffffffffffffffffffffffffffffnat,
    ;
    assert(fmul(0x7752d254be6dd06f6c57201b49004ecfafcef90ca564134790142cf203d6482851585baed20555f5efea5572fec73f538192c37903e4f88be2f37ed074024ec432nat, 0x7752d254be6dd06f6c57201b49004ecfafcef90ca564134790142cf203d6482851585baed20555f5efea5572fec73f538192c37903e4f88be2f37ed074024ec432nat, p) == 0x314137883cd7fb89159e598003bb1ddabaf6e943d00499568d6331c292e3afb67967be3e815cc5f9877838a3bbc36e6338060de2c7f5b2893d1b3f8570120b97a3nat) by (nonlinear_arith)
        requires
            p == 0x1ffffffffffffffffffffffffffffffffffffffffffffffffffffffffffffffffffffffffffffffffffffffffffffffffffffffffffffffffffffffffffffffffffnat,
    ;
    assert(fmul(0x1fffffffffffffffffffffffffffffffffffffffffffffffffffffffffffffffffffffffffffffffffffffffffffffffffffffffffffffffffffffffffffffa4331nat, 0x314137883cd7fb89159e598003bb1ddabaf6e943d00499568d6331c292e3afb67967be3e815cc5f9877838a3bbc36e6338060de2c7f5b2893d1b3f8570120b97a3nat, p) == 0x6314137883cd7fb89159e598003bb1ddabaf6e943d00499568d6331c292e3afb67967be3e815cc5f9877838a3bbc36e6338060de2c7f5b2893d1b3f8570120b989nat) by (nonlinear_arith)
        requires
            p == 0x1ffffffffffffffffffffffffffffffffffffffffffffffffffffffffffffffffffffffffffffffffffffffffffffffffffffffffffffffffffffffffffffffffffnat,
    ;
    assert(fmul(0x1nat, 0x1nat, p) == 0x1nat) by (nonlinear_arith)
        requires
            p == 0x1ffffffffffffffffffffffffffffffffffffffffffffffffffffffffffffffffffffffffffffffffffffffffffffffffffffffffffffffffffffffffffffffffffnat,
    ;
    assert(fadd(0x4nat, 0x11dd4b4952f9b741bdb15c806d24013b3ebf3be43295904d1e4050b3c80f5920a145616ebb481557d7bfa955cbfb1cfd4e064b0de40f93e22f8bcdfb41d0093b10cnat, p) == 0x11dd4b4952f9b741bdb15c806d24013b3ebf3be43295904d1e4050b3c80f5920a145616ebb481557d7bfa955cbfb1cfd4e064b0de40f93e22f8bcdfb41d0093b110nat) by (nonlinear_arith)
        requires
            p == 0x1ffffffffffffffffffffffffffffffffffffffffffffffffffffffffffffffffffffffffffffffffffffffffffffffffffffffffffffffffffffffffffffffffffnat,
    ;
    assert(fmul(0x11dd4b4952f9b741bdb15c806d24013b3ebf3be43295904d1e4050b3c80f5920a145616ebb481557d7bfa955cbfb1cfd4e064b0de40f93e22f8bcdfb41d0093b110nat, 0x11dd4b4952f9b741bdb15c806d24013b3ebf3be43295904d1e4050b3c80f5920a145616ebb481557d7bfa955cbfb1cfd4e064b0de40f93e22f8bcdfb41d0093b110nat, p) == 0x151b9b82200a920976a0825ce923c4f7d0b4d60ad87c8702488fe8d0030dacb4c0a4733418c20784b784c2e70394ab58d36a5e7d034494c4059b8b1993f05be41eenat) by (nonlinear_arith)
        requires
            p == 0x1ffffffffffffffffffffffffffffffffffffffffffffffffffffffffffffffffffffffffffffffffffffffffffffffffffffffffffffffffffffffffffffffffffnat,
    ;
    assert(fsub(0x151b9b82200a920976a0825ce923c4f7d0b4d60ad87c8702488fe8d0030dacb4c0a4733418c20784b784c2e70394ab58d36a5e7d034494c4059b8b1993f05be41eenat, 0x10nat, p) == 0x151b9b82200a920976a0825ce923c4f7d0b4d60ad87c8702488fe8d0030dacb4c0a4733418c20784b784c2e70394ab58d36a5e7d034494c4059b8b1993f05be41denat) by (nonlinear_arith)
        requires
            p == 0x1ffffffffffffffffffffffffffffffffffffffffffffffffffffffffffffffffffffffffffffffffffffffffffffffffffffffffffffffffffffffffffffffffffnat,
    ;
    assert(fsub(0x151b9b82200a920976a0825ce923c4f7d0b4d60ad87c8702488fe8d0030dacb4c0a4733418c20784b784c2e70394ab58d36a5e7d034494c4059b8b1993f05be41denat, 0x6314137883cd7fb89159e598003bb1ddabaf6e943d00499568d6331c292e3afb67967be3e815cc5f9877838a3bbc36e6338060de2c7f5b2893d1b3f8570120b97anat, p) == 0xeea5a4a97cdba0ded8ae403692009d9f5f9df2194ac8268f202859e407ac9050a2b0b75da40aabebdfd4aae5fd8e7ea7032586f207c9f117c5e6fda0e8049d8864nat) by (nonlinear_arith)
        requires
            p == 0x1ffffffffffffffffffffffffffffffffffffffffffffffffffffffffffffffffffffffffffffffffffffffffffffffffffffffffffffffffffffffffffffffffffnat,
    ;
    assert(fsub(0x1nat, 0x6314137883cd7fb89159e598003bb1ddabaf6e943d00499568d6331c292e3afb67967be3e815cc5f9877838a3bbc36e6338060de2c7f5b2893d1b3f8570120b989nat, p) == 0x19cebec877c3280476ea61a67ffc44e225450916bc2ffb66a9729cce3d6d1c5049869841c17ea33a067887c75c443c919cc7f9f21d380a4d76c2e4c07a8fedf4677nat) by (nonlinear_arith)
        requires
            p == 0x1ffffffffffffffffffffffffffffffffffffffffffffffffffffffffffffffffffffffffffffffffffffffffffffffffffffffffffffffffffffffffffffffffffnat,
    ;
    assert(fadd(0x1nat, 0x6314137883cd7fb89159e598003bb1ddabaf6e943d00499568d6331c292e3afb67967be3e815cc5f9877838a3bbc36e6338060de2c7f5b2893d1b3f8570120b989nat, p) == 0x6314137883cd7fb89159e598003bb1ddabaf6e943d00499568d6331c292e3afb67967be3e815cc5f9877838a3bbc36e6338060de2c7f5b2893d1b3f8570120b98anat) by (nonlinear_arith)
        requires
            p == 0x1ffffffffffffffffffffffffffffffffffffffffffffffffffffffffffffffffffffffffffffffffffffffffffffffffffffffffffffffffffffffffffffffffffnat,
    ;
    assert(fsub(0x6314137883cd7fb89159e598003bb1ddabaf6e943d00499568d6331c292e3afb67967be3e815cc5f9877838a3bbc36e6338060de2c7f5b2893d1b3f8570120b97anat, 0x10nat, p) == 0x6314137883cd7fb89159e598003bb1ddabaf6e943d00499568d6331c292e3afb67967be3e815cc5f9877838a3bbc36e6338060de2c7f5b2893d1b3f8570120b96anat) by (nonlinear_arith)
        requires
            p == 0x1ffffffffffffffffffffffffffffffffffffffffffffffffffffffffffffffffffffffffffffffffffffffffffffffffffffffffffffffffffffffffffffffffffnat,
    ;
    assert(fmul(0xeea5a4a97cdba0ded8ae403692009d9f5f9df2194ac8268f202859e407ac9050a2b0b75da40aabebdfd4aae5fd8e7ea7032586f207c9f117c5e6fda0e8049d8864nat, 0x19cebec877c3280476ea61a67ffc44e225450916bc2ffb66a9729cce3d6d1c5049869841c17ea33a067887c75c443c919cc7f9f21d380a4d76c2e4c07a8fedf4677nat, p) == 0xa7b8ad13273967f045760ad262b4c4c830f65f186d581c58803d1faf159540092caf8e07c083c8869f994d3bb4237f76781121ed6132f458a0940e87c039fd5de0nat) by (nonlinear_arith)
        requires
            p == 0x1ffffffffffffffffffffffffffffffffffffffffffffffffffffffffffffffffffffffffffffffffffffffffffffffffffffffffffffffffffffffffffffffffffnat,
    ;
    assert(fmul(0x6314137883cd7fb89159e598003bb1ddabaf6e943d00499568d6331c292e3afb67967be3e815cc5f9877838a3bbc36e6338060de2c7f5b2893d1b3f8570120b98anat, 0x6314137883cd7fb89159e598003bb1ddabaf6e943d00499568d6331c292e3afb67967be3e815cc5f9877838a3bbc36e6338060de2c7f5b2893d1b3f8570120b96anat, p) == 0x58ef66005f66ed741cf21f3b326d6110ee7c0708bd88b6933aca8940e2edadae650f5c7628484a3df5de48b0679e57e8ca966ddd715fad0737ca0c17e6112fd134nat) by (nonlinear_arith)
        requires
            p == 0x1ffffffffffffffffffffffffffffffffffffffffffffffffffffffffffffffffffffffffffffffffffffffffffffffffffffffffffffffffffffffffffffffffffnat,
    ;
    assert(fmul(0x19cebec877c3280476ea61a67ffc44e225450916bc2ffb66a9729cce3d6d1c5049869841c17ea33a067887c75c443c919cc7f9f21d380a4d76c2e4c07a8fedf4677nat, 0x6314137883cd7fb89159e598003bb1ddabaf6e943d00499568d6331c292e3afb67967be3e815cc5f9877838a3bbc36e6338060de2c7f5b2893d1b3f8570120b98anat, p) == 0xab651e02e841aeada84f8f4c693c6f4f2f503981c6ea9ea7c1b797249a768db774e1ed4a529c28e2c204d1c9853391d2c5e381957b3a43775a2dccde7ccfa709anat) by (nonlinear_arith)
        requires
            p == 0x1ffffffffffffffffffffffffffffffffffffffffffffffffffffffffffffffffffffffffffffffffffffffffffffffffffffffffffffffffffffffffffffffffffnat,
    ;
    assert(fmul(0xeea5a4a97cdba0ded8ae403692009d9f5f9df2194ac8268f202859e407ac9050a2b0b75da40aabebdfd4aae5fd8e7ea7032586f207c9f117c5e6fda0e8049d8864nat, 0x6314137883cd7fb89159e598003bb1ddabaf6e943d00499568d6331c292e3afb67967be3e815cc5f9877838a3bbc36e6338060de2c7f5b2893d1b3f8570120b96anat, p) == 0x160de07103709bdf2561e6ec88138c28a9a8741f0cf335ee1bb0857980431d683c29af4ff063c11d5257aabd09529a8f729890db5b522cade2e5a389d0f3b8ca659nat) by (nonlinear_arith)
        requires
            p == 0x1ffffffffffffffffffffffffffffffffffffffffffffffffffffffffffffffffffffffffffffffffffffffffffffffffffffffffffffffffffffffffffffffffffnat,
    ;
}

/// The first coordinate of four times the generator of E521 is not zero.
proof fn lemma_e521_four_times()
    ensures
        point_add(
            PointView {
                x: 0xa7b8ad13273967f045760ad262b4c4c830f65f186d581c58803d1faf159540092caf8e07c083c8869f994d3bb4237f76781121ed6132f458a0940e87c039fd5de0nat,
                y: 0x58ef66005f66ed741cf21f3b326d6110ee7c0708bd88b6933aca8940e2edadae650f5c7628484a3df5de48b0679e57e8ca966ddd715fad0737ca0c17e6112fd134nat,
                z: 0xab651e02e841aeada84f8f4c693c6f4f2f503981c6ea9ea7c1b797249a768db774e1ed4a529c28e2c204d1c9853391d2c5e381957b3a43775a2dccde7ccfa709anat,
                t: 0x160de07103709bdf2561e6ec88138c28a9a8741f0cf335ee1bb0857980431d683c29af4ff063c11d5257aabd09529a8f729890db5b522cade2e5a389d0f3b8ca659nat,
            },
            PointView {
                x: 0xa7b8ad13273967f045760ad262b4c4c830f65f186d581c58803d1faf159540092caf8e07c083c8869f994d3bb4237f76781121ed6132f458a0940e87c039fd5de0nat,
                y: 0x58ef66005f66ed741cf21f3b326d6110ee7c0708bd88b6933aca8940e2edadae650f5c7628484a3df5de48b0679e57e8ca966ddd715fad0737ca0c17e6112fd134nat,
                z: 0xab651e02e841aeada84f8f4c693c6f4f2f503981c6ea9ea7c1b797249a768db774e1ed4a529c28e2c204d1c9853391d2c5e381957b3a43775a2dccde7ccfa709anat,
                t: 0x160de07103709bdf2561e6ec88138c28a9a8741f0cf335ee1bb0857980431d683c29af4ff063c11d5257aabd09529a8f729890db5b522cade2e5a389d0f3b8ca659nat,
            },
            EdCurves::E521.spec_p(),
            EdCurves::E521.spec_d(),
        ).x == 0x12c43eef16eda080389b2c9484921aabb8184ce8a0b78eb15928ec02742f44e08d5d0408b5b6cbd3c2c627929ad04135c032cdc8ffed22900ad02259e9c4d13cab7nat,
{
    let p = EdCurves::E521.spec_p();
    assert(fmul(0xa7b8ad13273967f045760ad262b4c4c830f65f186d581c58803d1faf159540092caf8e07c083c8869f994d3bb4237f76781121ed6132f458a0940e87c039fd5de0nat, 0xa7b8ad13273967f045760ad262b4c4c830f65f186d581c58803d1faf159540092caf8e07c083c8869f994d3bb4237f76781121ed6132f458a0940e87c039fd5de0nat, p) == 0x1a4c896bedcc75761e6c4f9c9b4c9576b9c1f3a0806cf64ed8a08c5f4f0be5968005996cc717aaa3cd1031b8ee2d79549db06eb3f9eb97f68d2f4efa3eb095eed00nat) by (nonlinear_arith)
        requires
            p == 0x1ffffffffffffffffffffffffffffffffffffffffffffffffffffffffffffffffffffffffffffffffffffffffffffffffffffffffffffffffffffffffffffffffffnat,
    ;
    assert(fmul(0x58ef66005f66ed741cf21f3b326d6110ee7c0708bd88b6933aca8940e2edadae650f5c7628484a3df5de48b0679e57e8ca966ddd715fad0737ca0c17e6112fd134nat, 0x58ef66005f66ed741cf21f3b326d6110ee7c0708bd88b6933aca8940e2edadae650f5c7628484a3df5de48b0679e57e8ca966ddd715fad0737ca0c17e6112fd134nat, p) == 0x1047c7aa2c0f1d67d9438dac55d0a38dbf340b3e214716bcaa98960bc9aef4d0774cfdc8b0479de546f96122830ef915d5741089857b465d992ba1e967507cc5cd0nat) by (nonlinear_arith)
        requires
            p == 0x1ffffffffffffffffffffffffffffffffffffffffffffffffffffffffffffffffffffffffffffffffffffffffffffffffffffffffffffffffffffffffffffffffffnat,
    ;
    assert(fmul(0x160de07103709bdf2561e6ec88138c28a9a8741f0cf335ee1bb0857980431d683c29af4ff063c11d5257aabd09529a8f729890db5b522cade2e5a389d0f3b8ca659nat, 0x160de07103709bdf2561e6ec88138c28a9a8741f0cf335ee1bb0857980431d683c29af4ff063c11d5257aabd09529a8f729890db5b522cade2e5a389d0f3b8ca659nat, p) == 0x1caf2a0e0df595a33fb6469d8cb8556819f306680086c85a038fc9f12b905dc8deb3105097c1aa2c3cb75defca2e86e6f9043f63679ed73cd45cb1641fa26ec074cnat) by (nonlinear_arith)
        requires
            p == 0x1ffffffffffffffffffffffffffffffffffffffffffffffffffffffffffffffffffffffffffffffffffffffffffffffffffffffffffffffffffffffffffffffffffnat,
    ;
    assert(fmul(0x1fffffffffffffffffffffffffffffffffffffffffffffffffffffffffffffffffffffffffffffffffffffffffffffffffffffffffffffffffffffffffffffa4331nat, 0x1caf2a0e0df595a33fb6469d8cb8556819f306680086c85a038fc9f12b905dc8deb3105097c1aa2c3cb75defca2e86e6f9043f63679ed73cd45cb1641fa26ec074cnat, p) == 0x15e390a47e4d75497e63ba47b9ea516d85b4754aaea69b2498488a1f1808ab51fa5ab8eb5653643ba5c75da880faf62f4316f7cfc3edfb49942f1c0718334352c3bnat) by (nonlinear_arith)
        requires
            p == 0x1ffffffffffffffffffffffffffffffffffffffffffffffffffffffffffffffffffffffffffffffffffffffffffffffffffffffffffffffffffffffffffffffffffnat,
    ;
    assert(fmul(0xab651e02e841aeada84f8f4c693c6f4f2f503981c6ea9ea7c1b797249a768db774e1ed4a529c28e2c204d1c9853391d2c5e381957b3a43775a2dccde7ccfa709anat, 0xab651e02e841aeada84f8f4c693c6f4f2f503981c6ea9ea7c1b797249a768db774e1ed4a529c28e2c204d1c9853391d2c5e381957b3a43775a2dccde7ccfa709anat, p) == 0x14b0c0719b8e1d94794c23013732e796f3418993f30d71e6eaf0984c00b22f14fcf7de4a210be44d6e423532f0417c3b300d876dbb78e30a922bd4dc8dcdcf61d95nat) by (nonlinear_arith)
        requires
            p == 0x1ffffffffffffffffffffffffffffffffffffffffffffffffffffffffffffffffffffffffffffffffffffffffffffffffffffffffffffffffffffffffffffffffffnat,
    ;
    assert(fadd(0xa7b8ad13273967f045760ad262b4c4c830f65f186d581c58803d1faf159540092caf8e07c083c8869f994d3bb4237f76781121ed6132f458a0940e87c039fd5de0nat, 0x58ef66005f66ed741cf21f3b326d6110ee7c0708bd88b6933aca8940e2edadae650f5c7628484a3df5de48b0679e57e8ca966ddd715fad0737ca0c17e6112fd134nat, p) == 0x100a8131386a0556462682a0d952225d91f7266212ae0d2ebbb07a8eff882edb791beea7de8cc12c4957795ec1bc1d75f42a78fcad292a15fd85e1a9fa64b2d2f14nat) by (nonlinear_arith)
        requires
            p == 0x1ffffffffffffffffffffffffffffffffffffffffffffffffffffffffffffffffffffffffffffffffffffffffffffffffffffffffffffffffffffffffffffffffffnat,
    ;
    assert(fmul(0x100a8131386a0556462682a0d952225d91f7266212ae0d2ebbb07a8eff882edb791beea7de8cc12c4957795ec1bc1d75f42a78fcad292a15fd85e1a9fa64b2d2f14nat, 0x100a8131386a0556462682a0d952225d91f7266212ae0d2ebbb07a8eff882edb791beea7de8cc12c4957795ec1bc1d75f42a78fcad292a15fd85e1a9fa64b2d2f14nat, p) == 0x138d7e5ba5cda8d91b07406fd97722ec3555b6071169c38c2020b95d887291f9efaf958cc1e82007e04588da7319366d75dc5f2a40dacf2f992f31825eca5e7468bnat) by (nonlinear_arith)
        requires
            p == 0x1ffffffffffffffffffffffffffffffffffffffffffffffffffffffffffffffffffffffffffffffffffffffffffffffffffffffffffffffffffffffffffffffffffnat,
    ;
    assert(fsub(0x138d7e5ba5cda8d91b07406fd97722ec3555b6071169c38c2020b95d887291f9efaf958cc1e82007e04588da7319366d75dc5f2a40dacf2f992f31825eca5e7468bnat, 0x1a4c896bedcc75761e6c4f9c9b4c9576b9c1f3a0806cf64ed8a08c5f4f0be5968005996cc717aaa3cd1031b8ee2d79549db06eb3f9eb97f68d2f4efa3eb095eed00nat, p) == 0x1940f4efb8013362fc9af0d33e2a8d757b93c26690fccd3d47802cfe3966ac636fa9fc1ffad075641335572184ebbd18d82bf07646ef37390bffe2882019c88598anat) by (nonlinear_arith)
        requires
            p == 0x1ffffffffffffffffffffffffffffffffffffffffffffffffffffffffffffffffffffffffffffffffffffffffffffffffffffffffffffffffffffffffffffffffffnat,
    ;
    assert(fsub(0x1940f4efb8013362fc9af0d33e2a8d757b93c26690fccd3d47802cfe3966ac636fa9fc1ffad075641335572184ebbd18d82bf07646ef37390bffe2882019c88598anat, 0x1047c7aa2c0f1d67d9438dac55d0a38dbf340b3e214716bcaa98960bc9aef4d0774cfdc8b0479de546f96122830ef915d5741089857b465d992ba1e967507cc5cd0nat, p) == 0x8f92d458bf215fb23576326e859e9e7bc5fb7286fb5b6809ce796f26fb7b792f85cfe574a88d77ecc3bf5ff01dcc40302b7dfecc173f0db72d4409eb8c94bbfcbanat) by (nonlinear_arith)
        requires
            p == 0x1ffffffffffffffffffffffffffffffffffffffffffffffffffffffffffffffffffffffffffffffffffffffffffffffffffffffffffffffffffffffffffffffffffnat,
    ;
    assert(fsub(0x14b0c0719b8e1d94794c23013732e796f3418993f30d71e6eaf0984c00b22f14fcf7de4a210be44d6e423532f0417c3b300d876dbb78e30a922bd4dc8dcdcf61d95nat, 0x15e390a47e4d75497e63ba47b9ea516d85b4754aaea69b2498488a1f1808ab51fa5ab8eb5653643ba5c75da880faf62f4316f7cfc3edfb49942f1c0718334352c3bnat, p) == 0x1ecd2fcd1d40a84afae868b97d4896296d8d14494466d6c252a80e2ce8a983c3029d255ecab88011c87ad78a6f46860becf68f9df78ae7c0fdfcb8d5759a8c0f159nat) by (nonlinear_arith)
        requires
            p == 0x1ffffffffffffffffffffffffffffffffffffffffffffffffffffffffffffffffffffffffffffffffffffffffffffffffffffffffffffffffffffffffffffffffffnat,
    ;
    assert(fmul(0x8f92d458bf215fb23576326e859e9e7bc5fb7286fb5b6809ce796f26fb7b792f85cfe574a88d77ecc3bf5ff01dcc40302b7dfecc173f0db72d4409eb8c94bbfcbanat, 0x1ecd2fcd1d40a84afae868b97d4896296d8d14494466d6c252a80e2ce8a983c3029d255ecab88011c87ad78a6f46860becf68f9df78ae7c0fdfcb8d5759a8c0f159nat, p) == 0x12c43eef16eda080389b2c9484921aabb8184ce8a0b78eb15928ec02742f44e08d5d0408b5b6cbd3c2c627929ad04135c032cdc8ffed22900ad02259e9c4d13cab7nat) by (nonlinear_arith)
        requires
            p == 0x1ffffffffffffffffffffffffffffffffffffffffffffffffffffffffffffffffffffffffffffffffffffffffffffffffffffffffffffffffffffffffffffffffffnat,
    ;
}

/// Four times the generator of each curve is not the neutral element.
pub proof fn lemma_four_times_generator(id: EdCurves)
    ensures
        !same_point(
            point_mul(
                4,
                extended_of(id.spec_gx(), id.spec_gy(), id.spec_p()),
                id.spec_p(),
                id.spec_d(),
            ),
            identity_view(),
            id.spec_p(),
        ),
{
    let p = id.spec_p();
    let d = id.spec_d();
    let g = extended_of(id.spec_gx(), id.spec_gy(), p);
    lemma_two_times(id.spec_gx(), id.spec_gy(), p, d);
    reveal_with_fuel(point_mul, 3);
    let q = point_mul(2, g, p, d);
    assert(point_mul(4, g, p, d) == point_add(q, q, p, d));
    match id {
        EdCurves::E448 => {
            lemma_e448_twice();
            lemma_e448_four_times();
        },
        EdCurves::E521 => {
            lemma_e521_twice();
            lemma_e521_four_times();
        },
    }
    let four = point_mul(4, g, p, d);
    assert(four.x != 0);
    assert(four.x < p);
    assert(four.x * 1 == four.x) by (nonlinear_arith);
    assert(0 * four.z == 0) by (nonlinear_arith);
    assert(fmul(four.x, 1, p) == four.x);
    assert(fmul(0, four.z, p) == 0);
}

} // verus!
