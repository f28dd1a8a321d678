//! The largest prime of the group order, `r = 5594472617641`: it is prime
//! because 13 has the order `r - 1` modulo `r`.

use crate::exponent::has_order;
use crate::factor::{is_factorization, prime_power_product};
use crate::generator::{lemma_order_by_prime_checks, lemma_prime_by_generator};
use crate::group::powers::{
    lemma_list_extends, lemma_square_multiply, lemma_square_multiply_start,
    lemma_square_multiply_step,
};
use crate::group::small_primes::{
    lemma_prime_1427, lemma_prime_15331, lemma_prime_2, lemma_prime_2131, lemma_prime_3,
    lemma_prime_5,
};
use crate::modular::pow_mod;
use crate::numbers::is_prime;
use vstd::arithmetic::power::*;
use vstd::prelude::*;

verus! {

/// The largest prime factor of the group order.
pub const LARGEST_ORDER_PRIME: u128 = 5594472617641;

/// 13 to the power `r - 1` is one modulo `r = 5594472617641`.
proof fn lemma_witness_power()
    ensures
        pow_mod(13, 5594472617640, 5594472617641) == 1,
{
    let m: nat = 5594472617641;
    lemma_square_multiply_start(5339029089303, m);
    lemma_square_multiply_step(5320087328391, 1, m, 5339029089303, 0, 1, 5320087328391);
    lemma_square_multiply_step(1002239447234, 2, m, 5320087328391, 1, 5320087328391, 5320087328391);
    lemma_square_multiply_step(4678207082172, 5, m, 1002239447234, 2, 5320087328391, 2561669845391);
    lemma_square_multiply_step(1380540007223, 10, m, 4678207082172, 5, 2561669845391, 2561669845391);
    lemma_square_multiply_step(1378192915709, 20, m, 1380540007223, 10, 2561669845391, 2561669845391);
    lemma_square_multiply_step(2759792385326, 40, m, 1378192915709, 20, 2561669845391, 2561669845391);
    lemma_square_multiply_step(4488549092172, 81, m, 2759792385326, 40, 2561669845391, 4014358889137);
    lemma_square_multiply_step(2347900435081, 162, m, 4488549092172, 81, 4014358889137, 4014358889137);
    lemma_square_multiply_step(3278674593160, 325, m, 2347900435081, 162, 4014358889137, 3340730645776);
    lemma_square_multiply_step(4279046645342, 651, m, 3278674593160, 325, 3340730645776, 2492363721516);
    lemma_square_multiply_step(2451738537715, 1302, m, 4279046645342, 651, 2492363721516, 2492363721516);
    lemma_square_multiply_step(2936282155269, 2605, m, 2451738537715, 1302, 2492363721516, 3986794061132);
    lemma_square_multiply_step(426736155674, 5210, m, 2936282155269, 2605, 3986794061132, 3986794061132);
    lemma_square_multiply_step(4450488641624, 10420, m, 426736155674, 5210, 3986794061132, 3986794061132);
    lemma_square_multiply_step(5168474590922, 20841, m, 4450488641624, 10420, 3986794061132, 5371868800822);
    lemma_square_multiply_step(3919441248782, 41682, m, 5168474590922, 20841, 5371868800822, 5371868800822);
    lemma_square_multiply_step(5137163366689, 83364, m, 3919441248782, 41682, 5371868800822, 5371868800822);
    lemma_square_multiply_step(3698773628931, 166728, m, 5137163366689, 83364, 5371868800822, 5371868800822);
    lemma_square_multiply_step(3715519612837, 333456, m, 3698773628931, 166728, 5371868800822, 5371868800822);
    lemma_square_multiply_step(4187954798242, 666913, m, 3715519612837, 333456, 5371868800822, 3161019524538);
    lemma_square_multiply_step(4082114577022, 1333826, m, 4187954798242, 666913, 3161019524538, 3161019524538);
    lemma_square_multiply_step(3248250557360, 2667652, m, 4082114577022, 1333826, 3161019524538, 3161019524538);
    lemma_square_multiply_step(1423802843000, 5335304, m, 3248250557360, 2667652, 3161019524538, 3161019524538);
    lemma_square_multiply_step(4453064459378, 10670609, m, 1423802843000, 5335304, 3161019524538, 2476238528199);
    lemma_square_multiply_step(854815587443, 21341219, m, 4453064459378, 10670609, 2476238528199, 2517606509120);
    lemma_square_multiply_step(1841873680326, 42682438, m, 854815587443, 21341219, 2517606509120, 2517606509120);
    lemma_square_multiply_step(1085334524174, 85364877, m, 1841873680326, 42682438, 2517606509120, 1011643298758);
    lemma_square_multiply_step(4116424757246, 170729755, m, 1085334524174, 85364877, 1011643298758, 5233562019082);
    lemma_square_multiply_step(3940466149597, 341459510, m, 4116424757246, 170729755, 5233562019082, 5233562019082);
    lemma_square_multiply_step(3426361660367, 682919020, m, 3940466149597, 341459510, 5233562019082, 5233562019082);
    lemma_square_multiply_step(2557613651206, 1365838041, m, 3426361660367, 682919020, 5233562019082, 4747197869610);
    lemma_square_multiply_step(2574810449627, 2731676082, m, 2557613651206, 1365838041, 4747197869610, 4747197869610);
    lemma_square_multiply_step(1426893722321, 5463352165, m, 2574810449627, 2731676082, 4747197869610, 1896867440647);
    lemma_square_multiply_step(2588902022278, 10926704331, m, 1426893722321, 5463352165, 1896867440647, 2300480533719);
    lemma_square_multiply_step(719713494927, 21853408662, m, 2588902022278, 10926704331, 2300480533719, 2300480533719);
    lemma_square_multiply_step(1108958050908, 43706817325, m, 719713494927, 21853408662, 2300480533719, 3797918919721);
    lemma_square_multiply_step(3306456489333, 87413634650, m, 1108958050908, 43706817325, 3797918919721, 3797918919721);
    lemma_square_multiply_step(4830358385714, 174827269301, m, 3306456489333, 87413634650, 3797918919721, 2793352096244);
    lemma_square_multiply_step(4441568341660, 349654538602, m, 4830358385714, 174827269301, 2793352096244, 2793352096244);
    lemma_square_multiply_step(815730721, 699309077205, m, 4441568341660, 349654538602, 2793352096244, 1);
    lemma_square_multiply_step(28561, 1398618154410, m, 815730721, 699309077205, 1, 1);
    lemma_square_multiply_step(169, 2797236308820, m, 28561, 1398618154410, 1, 1);
    lemma_square_multiply_step(13, 5594472617640, m, 169, 2797236308820, 1, 1);
    lemma_square_multiply(13, 5594472617640, m);
}

/// 13 to the power `(r - 1) / 2` modulo `r = 5594472617641`.
proof fn lemma_witness_power_without_2()
    ensures
        pow_mod(13, 2797236308820, 5594472617641) == 5594472617640,
{
    let m: nat = 5594472617641;
    lemma_square_multiply_start(5320087328391, m);
    lemma_square_multiply_step(1002239447234, 1, m, 5320087328391, 0, 1, 1002239447234);
    lemma_square_multiply_step(4678207082172, 2, m, 1002239447234, 1, 1002239447234, 1002239447234);
    lemma_square_multiply_step(1380540007223, 5, m, 4678207082172, 2, 1002239447234, 2376787700287);
    lemma_square_multiply_step(1378192915709, 10, m, 1380540007223, 5, 2376787700287, 2376787700287);
    lemma_square_multiply_step(2759792385326, 20, m, 1378192915709, 10, 2376787700287, 2376787700287);
    lemma_square_multiply_step(4488549092172, 40, m, 2759792385326, 20, 2376787700287, 2376787700287);
    lemma_square_multiply_step(2347900435081, 81, m, 4488549092172, 40, 2376787700287, 4144879268532);
    lemma_square_multiply_step(3278674593160, 162, m, 2347900435081, 81, 4144879268532, 4144879268532);
    lemma_square_multiply_step(4279046645342, 325, m, 3278674593160, 162, 4144879268532, 2576381431821);
    lemma_square_multiply_step(2451738537715, 651, m, 4279046645342, 325, 2576381431821, 4351701110914);
    lemma_square_multiply_step(2936282155269, 1302, m, 2451738537715, 651, 4351701110914, 4351701110914);
    lemma_square_multiply_step(426736155674, 2605, m, 2936282155269, 1302, 4351701110914, 1222436301894);
    lemma_square_multiply_step(4450488641624, 5210, m, 426736155674, 2605, 1222436301894, 1222436301894);
    lemma_square_multiply_step(5168474590922, 10420, m, 4450488641624, 5210, 1222436301894, 1222436301894);
    lemma_square_multiply_step(3919441248782, 20841, m, 5168474590922, 10420, 1222436301894, 1477417330015);
    lemma_square_multiply_step(5137163366689, 41682, m, 3919441248782, 20841, 1477417330015, 1477417330015);
    lemma_square_multiply_step(3698773628931, 83364, m, 5137163366689, 41682, 1477417330015, 1477417330015);
    lemma_square_multiply_step(3715519612837, 166728, m, 3698773628931, 83364, 1477417330015, 1477417330015);
    lemma_square_multiply_step(4187954798242, 333456, m, 3715519612837, 166728, 1477417330015, 1477417330015);
    lemma_square_multiply_step(4082114577022, 666913, m, 4187954798242, 333456, 1477417330015, 4613131874785);
    lemma_square_multiply_step(3248250557360, 1333826, m, 4082114577022, 666913, 4613131874785, 4613131874785);
    lemma_square_multiply_step(1423802843000, 2667652, m, 3248250557360, 1333826, 4613131874785, 4613131874785);
    lemma_square_multiply_step(4453064459378, 5335304, m, 1423802843000, 2667652, 4613131874785, 4613131874785);
    lemma_square_multiply_step(854815587443, 10670609, m, 4453064459378, 5335304, 4613131874785, 1029453419527);
    lemma_square_multiply_step(1841873680326, 21341219, m, 854815587443, 10670609, 1029453419527, 5223356318266);
    lemma_square_multiply_step(1085334524174, 42682438, m, 1841873680326, 21341219, 5223356318266, 5223356318266);
    lemma_square_multiply_step(4116424757246, 85364877, m, 1085334524174, 42682438, 5223356318266, 1091446061822);
    lemma_square_multiply_step(3940466149597, 170729755, m, 4116424757246, 85364877, 1091446061822, 134976834684);
    lemma_square_multiply_step(3426361660367, 341459510, m, 3940466149597, 170729755, 134976834684, 134976834684);
    lemma_square_multiply_step(2557613651206, 682919020, m, 3426361660367, 341459510, 134976834684, 134976834684);
    lemma_square_multiply_step(2574810449627, 1365838041, m, 2557613651206, 682919020, 134976834684, 2054022864628);
    lemma_square_multiply_step(1426893722321, 2731676082, m, 2574810449627, 1365838041, 2054022864628, 2054022864628);
    lemma_square_multiply_step(2588902022278, 5463352165, m, 1426893722321, 2731676082, 2054022864628, 4491669502458);
    lemma_square_multiply_step(719713494927, 10926704331, m, 2588902022278, 5463352165, 4491669502458, 144247228497);
    lemma_square_multiply_step(1108958050908, 21853408662, m, 719713494927, 10926704331, 144247228497, 144247228497);
    lemma_square_multiply_step(3306456489333, 43706817325, m, 1108958050908, 21853408662, 144247228497, 601957043319);
    lemma_square_multiply_step(4830358385714, 87413634650, m, 3306456489333, 43706817325, 601957043319, 601957043319);
    lemma_square_multiply_step(4441568341660, 174827269301, m, 4830358385714, 87413634650, 601957043319, 1844779353417);
    lemma_square_multiply_step(815730721, 349654538602, m, 4441568341660, 174827269301, 1844779353417, 1844779353417);
    lemma_square_multiply_step(28561, 699309077205, m, 815730721, 349654538602, 1844779353417, 5594472617640);
    lemma_square_multiply_step(169, 1398618154410, m, 28561, 699309077205, 5594472617640, 5594472617640);
    lemma_square_multiply_step(13, 2797236308820, m, 169, 1398618154410, 5594472617640, 5594472617640);
    lemma_square_multiply(13, 2797236308820, m);
}

/// 13 to the power `(r - 1) / 3` modulo `r = 5594472617641`.
proof fn lemma_witness_power_without_3()
    ensures
        pow_mod(13, 1864824205880, 5594472617641) == 633520002390,
{
    let m: nat = 5594472617641;
    lemma_square_multiply_start(1002239447234, m);
    lemma_square_multiply_step(4678207082172, 1, m, 1002239447234, 0, 1, 4678207082172);
    lemma_square_multiply_step(1380540007223, 3, m, 4678207082172, 1, 4678207082172, 4960991678494);
    lemma_square_multiply_step(1378192915709, 6, m, 1380540007223, 3, 4960991678494, 4960991678494);
    lemma_square_multiply_step(2759792385326, 13, m, 1378192915709, 6, 4960991678494, 3985001064815);
    lemma_square_multiply_step(4488549092172, 27, m, 2759792385326, 13, 3985001064815, 916037896507);
    lemma_square_multiply_step(2347900435081, 54, m, 4488549092172, 27, 916037896507, 916037896507);
    lemma_square_multiply_step(3278674593160, 108, m, 2347900435081, 54, 916037896507, 916037896507);
    lemma_square_multiply_step(4279046645342, 217, m, 3278674593160, 108, 916037896507, 3385529817488);
    lemma_square_multiply_step(2451738537715, 434, m, 4279046645342, 217, 3385529817488, 3385529817488);
    lemma_square_multiply_step(2936282155269, 868, m, 2451738537715, 434, 3385529817488, 3385529817488);
    lemma_square_multiply_step(426736155674, 1736, m, 2936282155269, 868, 3385529817488, 3385529817488);
    lemma_square_multiply_step(4450488641624, 3473, m, 426736155674, 1736, 3385529817488, 1388758394772);
    lemma_square_multiply_step(5168474590922, 6947, m, 4450488641624, 3473, 1388758394772, 4699113999878);
    lemma_square_multiply_step(3919441248782, 13894, m, 5168474590922, 6947, 4699113999878, 4699113999878);
    lemma_square_multiply_step(5137163366689, 27788, m, 3919441248782, 13894, 4699113999878, 4699113999878);
    lemma_square_multiply_step(3698773628931, 55576, m, 5137163366689, 27788, 4699113999878, 4699113999878);
    lemma_square_multiply_step(3715519612837, 111152, m, 3698773628931, 55576, 4699113999878, 4699113999878);
    lemma_square_multiply_step(4187954798242, 222304, m, 3715519612837, 111152, 4699113999878, 4699113999878);
    lemma_square_multiply_step(4082114577022, 444608, m, 4187954798242, 222304, 4699113999878, 4699113999878);
    lemma_square_multiply_step(3248250557360, 889217, m, 4082114577022, 444608, 4699113999878, 3602836590456);
    lemma_square_multiply_step(1423802843000, 1778434, m, 3248250557360, 889217, 3602836590456, 3602836590456);
    lemma_square_multiply_step(4453064459378, 3556869, m, 1423802843000, 1778434, 3602836590456, 2304915449260);
    lemma_square_multiply_step(854815587443, 7113739, m, 4453064459378, 3556869, 2304915449260, 1588006898983);
    lemma_square_multiply_step(1841873680326, 14227479, m, 854815587443, 7113739, 1588006898983, 4878685791671);
    lemma_square_multiply_step(1085334524174, 28454959, m, 1841873680326, 14227479, 4878685791671, 1856288033658);
    lemma_square_multiply_step(4116424757246, 56909918, m, 1085334524174, 28454959, 1856288033658, 1856288033658);
    lemma_square_multiply_step(3940466149597, 113819836, m, 4116424757246, 56909918, 1856288033658, 1856288033658);
    lemma_square_multiply_step(3426361660367, 227639673, m, 3940466149597, 113819836, 1856288033658, 4403310807402);
    lemma_square_multiply_step(2557613651206, 455279347, m, 3426361660367, 227639673, 4403310807402, 3993557566112);
    lemma_square_multiply_step(2574810449627, 910558694, m, 2557613651206, 455279347, 3993557566112, 3993557566112);
    lemma_square_multiply_step(1426893722321, 1821117388, m, 2574810449627, 910558694, 3993557566112, 3993557566112);
    lemma_square_multiply_step(2588902022278, 3642234777, m, 1426893722321, 1821117388, 3993557566112, 5111089010534);
    lemma_square_multiply_step(719713494927, 7284469554, m, 2588902022278, 3642234777, 5111089010534, 5111089010534);
    lemma_square_multiply_step(1108958050908, 14568939108, m, 719713494927, 7284469554, 5111089010534, 5111089010534);
    lemma_square_multiply_step(3306456489333, 29137878216, m, 1108958050908, 14568939108, 5111089010534, 5111089010534);
    lemma_square_multiply_step(4830358385714, 58275756433, m, 3306456489333, 29137878216, 5111089010534, 627684548510);
    lemma_square_multiply_step(4441568341660, 116551512867, m, 4830358385714, 58275756433, 627684548510, 3309674971253);
    lemma_square_multiply_step(815730721, 233103025735, m, 4441568341660, 116551512867, 3309674971253, 633520002390);
    lemma_square_multiply_step(28561, 466206051470, m, 815730721, 233103025735, 633520002390, 633520002390);
    lemma_square_multiply_step(169, 932412102940, m, 28561, 466206051470, 633520002390, 633520002390);
    lemma_square_multiply_step(13, 1864824205880, m, 169, 932412102940, 633520002390, 633520002390);
    lemma_square_multiply(13, 1864824205880, m);
}

/// 13 to the power `(r - 1) / 5` modulo `r = 5594472617641`.
proof fn lemma_witness_power_without_5()
    ensures
        pow_mod(13, 1118894523528, 5594472617641) == 5539104407118,
{
    let m: nat = 5594472617641;
    lemma_square_multiply_start(1002239447234, m);
    lemma_square_multiply_step(4678207082172, 1, m, 1002239447234, 0, 1, 4678207082172);
    lemma_square_multiply_step(1380540007223, 2, m, 4678207082172, 1, 4678207082172, 4678207082172);
    lemma_square_multiply_step(1378192915709, 4, m, 1380540007223, 2, 4678207082172, 4678207082172);
    lemma_square_multiply_step(2759792385326, 8, m, 1378192915709, 4, 4678207082172, 4678207082172);
    lemma_square_multiply_step(4488549092172, 16, m, 2759792385326, 8, 4678207082172, 4678207082172);
    lemma_square_multiply_step(2347900435081, 32, m, 4488549092172, 16, 4678207082172, 4678207082172);
    lemma_square_multiply_step(3278674593160, 65, m, 2347900435081, 32, 4678207082172, 4374345290735);
    lemma_square_multiply_step(4279046645342, 130, m, 3278674593160, 65, 4374345290735, 4374345290735);
    lemma_square_multiply_step(2451738537715, 260, m, 4279046645342, 130, 4374345290735, 4374345290735);
    lemma_square_multiply_step(2936282155269, 521, m, 2451738537715, 260, 4374345290735, 3203132812395);
    lemma_square_multiply_step(426736155674, 1042, m, 2936282155269, 521, 3203132812395, 3203132812395);
    lemma_square_multiply_step(4450488641624, 2084, m, 426736155674, 1042, 3203132812395, 3203132812395);
    lemma_square_multiply_step(5168474590922, 4168, m, 4450488641624, 2084, 3203132812395, 3203132812395);
    lemma_square_multiply_step(3919441248782, 8336, m, 5168474590922, 4168, 3203132812395, 3203132812395);
    lemma_square_multiply_step(5137163366689, 16672, m, 3919441248782, 8336, 3203132812395, 3203132812395);
    lemma_square_multiply_step(3698773628931, 33345, m, 5137163366689, 16672, 3203132812395, 899039423267);
    lemma_square_multiply_step(3715519612837, 66691, m, 3698773628931, 33345, 899039423267, 3635974920175);
    lemma_square_multiply_step(4187954798242, 133382, m, 3715519612837, 66691, 3635974920175, 3635974920175);
    lemma_square_multiply_step(4082114577022, 266765, m, 4187954798242, 133382, 3635974920175, 1266152685227);
    lemma_square_multiply_step(3248250557360, 533530, m, 4082114577022, 266765, 1266152685227, 1266152685227);
    lemma_square_multiply_step(1423802843000, 1067060, m, 3248250557360, 533530, 1266152685227, 1266152685227);
    lemma_square_multiply_step(4453064459378, 2134121, m, 1423802843000, 1067060, 1266152685227, 1784048091050);
    lemma_square_multiply_step(854815587443, 4268243, m, 4453064459378, 2134121, 1784048091050, 5594124166614);
    lemma_square_multiply_step(1841873680326, 8536487, m, 854815587443, 4268243, 5594124166614, 1562033708150);
    lemma_square_multiply_step(1085334524174, 17072975, m, 1841873680326, 8536487, 1562033708150, 422637827540);
    lemma_square_multiply_step(4116424757246, 34145951, m, 1085334524174, 17072975, 422637827540, 4759473675387);
    lemma_square_multiply_step(3940466149597, 68291902, m, 4116424757246, 34145951, 4759473675387, 4759473675387);
    lemma_square_multiply_step(3426361660367, 136583804, m, 3940466149597, 68291902, 4759473675387, 4759473675387);
    lemma_square_multiply_step(2557613651206, 273167608, m, 3426361660367, 136583804, 4759473675387, 4759473675387);
    lemma_square_multiply_step(2574810449627, 546335216, m, 2557613651206, 273167608, 4759473675387, 4759473675387);
    lemma_square_multiply_step(1426893722321, 1092670433, m, 2574810449627, 546335216, 4759473675387, 5209200210597);
    lemma_square_multiply_step(2588902022278, 2185340866, m, 1426893722321, 1092670433, 5209200210597, 5209200210597);
    lemma_square_multiply_step(719713494927, 4370681732, m, 2588902022278, 2185340866, 5209200210597, 5209200210597);
    lemma_square_multiply_step(1108958050908, 8741363465, m, 719713494927, 4370681732, 5209200210597, 2874619404916);
    lemma_square_multiply_step(3306456489333, 17482726930, m, 1108958050908, 8741363465, 2874619404916, 2874619404916);
    lemma_square_multiply_step(4830358385714, 34965453860, m, 3306456489333, 17482726930, 2874619404916, 2874619404916);
    lemma_square_multiply_step(4441568341660, 69930907720, m, 4830358385714, 34965453860, 2874619404916, 2874619404916);
    lemma_square_multiply_step(815730721, 139861815441, m, 4441568341660, 69930907720, 2874619404916, 5539104407118);
    lemma_square_multiply_step(28561, 279723630882, m, 815730721, 139861815441, 5539104407118, 5539104407118);
    lemma_square_multiply_step(169, 559447261764, m, 28561, 279723630882, 5539104407118, 5539104407118);
    lemma_square_multiply_step(13, 1118894523528, m, 169, 559447261764, 5539104407118, 5539104407118);
    lemma_square_multiply(13, 1118894523528, m);
}

/// 13 to the power `(r - 1) / 1427` modulo `r = 5594472617641`.
proof fn lemma_witness_power_without_1427()
    ensures
        pow_mod(13, 3920443320, 5594472617641) == 693744849281,
{
    let m: nat = 5594472617641;
    lemma_square_multiply_start(2451738537715, m);
    lemma_square_multiply_step(2936282155269, 1, m, 2451738537715, 0, 1, 2936282155269);
    lemma_square_multiply_step(426736155674, 3, m, 2936282155269, 1, 2936282155269, 408885630642);
    lemma_square_multiply_step(4450488641624, 7, m, 426736155674, 3, 408885630642, 2800619979759);
    lemma_square_multiply_step(5168474590922, 14, m, 4450488641624, 7, 2800619979759, 2800619979759);
    lemma_square_multiply_step(3919441248782, 29, m, 5168474590922, 14, 2800619979759, 229945857391);
    lemma_square_multiply_step(5137163366689, 58, m, 3919441248782, 29, 229945857391, 229945857391);
    lemma_square_multiply_step(3698773628931, 116, m, 5137163366689, 58, 229945857391, 229945857391);
    lemma_square_multiply_step(3715519612837, 233, m, 3698773628931, 116, 229945857391, 3634205852157);
    lemma_square_multiply_step(4187954798242, 467, m, 3715519612837, 233, 3634205852157, 2195231547668);
    lemma_square_multiply_step(4082114577022, 934, m, 4187954798242, 467, 2195231547668, 2195231547668);
    lemma_square_multiply_step(3248250557360, 1869, m, 4082114577022, 934, 2195231547668, 2210672103248);
    lemma_square_multiply_step(1423802843000, 3738, m, 3248250557360, 1869, 2210672103248, 2210672103248);
    lemma_square_multiply_step(4453064459378, 7477, m, 1423802843000, 3738, 2210672103248, 807477095499);
    lemma_square_multiply_step(854815587443, 14955, m, 4453064459378, 7477, 807477095499, 5234783556653);
    lemma_square_multiply_step(1841873680326, 29910, m, 854815587443, 14955, 5234783556653, 5234783556653);
    lemma_square_multiply_step(1085334524174, 59821, m, 1841873680326, 29910, 5234783556653, 1858375729694);
    lemma_square_multiply_step(4116424757246, 119642, m, 1085334524174, 59821, 1858375729694, 1858375729694);
    lemma_square_multiply_step(3940466149597, 239284, m, 4116424757246, 119642, 1858375729694, 1858375729694);
    lemma_square_multiply_step(3426361660367, 478569, m, 3940466149597, 239284, 1858375729694, 2600446001216);
    lemma_square_multiply_step(2557613651206, 957139, m, 3426361660367, 478569, 2600446001216, 1789617687458);
    lemma_square_multiply_step(2574810449627, 1914278, m, 2557613651206, 957139, 1789617687458, 1789617687458);
    lemma_square_multiply_step(1426893722321, 3828557, m, 2574810449627, 1914278, 1789617687458, 1646961924546);
    lemma_square_multiply_step(2588902022278, 7657115, m, 1426893722321, 3828557, 1646961924546, 1801824081752);
    lemma_square_multiply_step(719713494927, 15314231, m, 2588902022278, 7657115, 1801824081752, 5462472695741);
    lemma_square_multiply_step(1108958050908, 30628463, m, 719713494927, 15314231, 5462472695741, 5447059224537);
    lemma_square_multiply_step(3306456489333, 61256926, m, 1108958050908, 30628463, 5447059224537, 5447059224537);
    lemma_square_multiply_step(4830358385714, 122513853, m, 3306456489333, 61256926, 5447059224537, 1087281414968);
    lemma_square_multiply_step(4441568341660, 245027707, m, 4830358385714, 122513853, 1087281414968, 1589893224802);
    lemma_square_multiply_step(815730721, 490055415, m, 4441568341660, 245027707, 1589893224802, 693744849281);
    lemma_square_multiply_step(28561, 980110830, m, 815730721, 490055415, 693744849281, 693744849281);
    lemma_square_multiply_step(169, 1960221660, m, 28561, 980110830, 693744849281, 693744849281);
    lemma_square_multiply_step(13, 3920443320, m, 169, 1960221660, 693744849281, 693744849281);
    lemma_square_multiply(13, 3920443320, m);
}

/// 13 to the power `(r - 1) / 2131` modulo `r = 5594472617641`.
proof fn lemma_witness_power_without_2131()
    ensures
        pow_mod(13, 2625280440, 5594472617641) == 2614630137118,
{
    let m: nat = 5594472617641;
    lemma_square_multiply_start(2451738537715, m);
    lemma_square_multiply_step(2936282155269, 1, m, 2451738537715, 0, 1, 2936282155269);
    lemma_square_multiply_step(426736155674, 2, m, 2936282155269, 1, 2936282155269, 2936282155269);
    lemma_square_multiply_step(4450488641624, 4, m, 426736155674, 2, 2936282155269, 2936282155269);
    lemma_square_multiply_step(5168474590922, 9, m, 4450488641624, 4, 2936282155269, 1082346714690);
    lemma_square_multiply_step(3919441248782, 19, m, 5168474590922, 9, 1082346714690, 1571124900840);
    lemma_square_multiply_step(5137163366689, 39, m, 3919441248782, 19, 1571124900840, 1247811333135);
    lemma_square_multiply_step(3698773628931, 78, m, 5137163366689, 39, 1247811333135, 1247811333135);
    lemma_square_multiply_step(3715519612837, 156, m, 3698773628931, 78, 1247811333135, 1247811333135);
    lemma_square_multiply_step(4187954798242, 312, m, 3715519612837, 156, 1247811333135, 1247811333135);
    lemma_square_multiply_step(4082114577022, 625, m, 4187954798242, 312, 1247811333135, 87513795297);
    lemma_square_multiply_step(3248250557360, 1251, m, 4082114577022, 625, 87513795297, 5594380601305);
    lemma_square_multiply_step(1423802843000, 2503, m, 3248250557360, 1251, 5594380601305, 1219548246915);
    lemma_square_multiply_step(4453064459378, 5007, m, 1423802843000, 2503, 1219548246915, 5017306217881);
    lemma_square_multiply_step(854815587443, 10014, m, 4453064459378, 5007, 5017306217881, 5017306217881);
    lemma_square_multiply_step(1841873680326, 20029, m, 854815587443, 10014, 5017306217881, 2522543708570);
    lemma_square_multiply_step(1085334524174, 40058, m, 1841873680326, 20029, 2522543708570, 2522543708570);
    lemma_square_multiply_step(4116424757246, 80117, m, 1085334524174, 40058, 2522543708570, 3536785081905);
    lemma_square_multiply_step(3940466149597, 160234, m, 4116424757246, 80117, 3536785081905, 3536785081905);
    lemma_square_multiply_step(3426361660367, 320468, m, 3940466149597, 160234, 3536785081905, 3536785081905);
    lemma_square_multiply_step(2557613651206, 640937, m, 3426361660367, 320468, 3536785081905, 3054103773066);
    lemma_square_multiply_step(2574810449627, 1281875, m, 2557613651206, 640937, 3054103773066, 5540950018556);
    lemma_square_multiply_step(1426893722321, 2563750, m, 2574810449627, 1281875, 5540950018556, 5540950018556);
    lemma_square_multiply_step(2588902022278, 5127500, m, 1426893722321, 2563750, 5540950018556, 5540950018556);
    lemma_square_multiply_step(719713494927, 10255001, m, 2588902022278, 5127500, 5540950018556, 2432542063975);
    lemma_square_multiply_step(1108958050908, 20510003, m, 719713494927, 10255001, 2432542063975, 4893370050746);
    lemma_square_multiply_step(3306456489333, 41020006, m, 1108958050908, 20510003, 4893370050746, 4893370050746);
    lemma_square_multiply_step(4830358385714, 82040013, m, 3306456489333, 41020006, 4893370050746, 4602629302629);
    lemma_square_multiply_step(4441568341660, 164080027, m, 4830358385714, 82040013, 4602629302629, 1789989003068);
    lemma_square_multiply_step(815730721, 328160055, m, 4441568341660, 164080027, 1789989003068, 2614630137118);
    lemma_square_multiply_step(28561, 656320110, m, 815730721, 328160055, 2614630137118, 2614630137118);
    lemma_square_multiply_step(169, 1312640220, m, 28561, 656320110, 2614630137118, 2614630137118);
    lemma_square_multiply_step(13, 2625280440, m, 169, 1312640220, 2614630137118, 2614630137118);
    lemma_square_multiply(13, 2625280440, m);
}

/// 13 to the power `(r - 1) / 15331` modulo `r = 5594472617641`.
proof fn lemma_witness_power_without_15331()
    ensures
        pow_mod(13, 364912440, 5594472617641) == 4170830691369,
{
    let m: nat = 5594472617641;
    lemma_square_multiply_start(4450488641624, m);
    lemma_square_multiply_step(5168474590922, 1, m, 4450488641624, 0, 1, 5168474590922);
    lemma_square_multiply_step(3919441248782, 2, m, 5168474590922, 1, 5168474590922, 5168474590922);
    lemma_square_multiply_step(5137163366689, 5, m, 3919441248782, 2, 5168474590922, 4471277651352);
    lemma_square_multiply_step(3698773628931, 10, m, 5137163366689, 5, 4471277651352, 4471277651352);
    lemma_square_multiply_step(3715519612837, 21, m, 3698773628931, 10, 4471277651352, 1263618145859);
    lemma_square_multiply_step(4187954798242, 43, m, 3715519612837, 21, 1263618145859, 641192951972);
    lemma_square_multiply_step(4082114577022, 87, m, 4187954798242, 43, 641192951972, 2489045707724);
    lemma_square_multiply_step(3248250557360, 174, m, 4082114577022, 87, 2489045707724, 2489045707724);
    lemma_square_multiply_step(1423802843000, 348, m, 3248250557360, 174, 2489045707724, 2489045707724);
    lemma_square_multiply_step(4453064459378, 696, m, 1423802843000, 348, 2489045707724, 2489045707724);
    lemma_square_multiply_step(854815587443, 1392, m, 4453064459378, 696, 2489045707724, 2489045707724);
    lemma_square_multiply_step(1841873680326, 2784, m, 854815587443, 1392, 2489045707724, 2489045707724);
    lemma_square_multiply_step(1085334524174, 5568, m, 1841873680326, 2784, 2489045707724, 2489045707724);
    lemma_square_multiply_step(4116424757246, 11136, m, 1085334524174, 5568, 2489045707724, 2489045707724);
    lemma_square_multiply_step(3940466149597, 22272, m, 4116424757246, 11136, 2489045707724, 2489045707724);
    lemma_square_multiply_step(3426361660367, 44544, m, 3940466149597, 22272, 2489045707724, 2489045707724);
    lemma_square_multiply_step(2557613651206, 89089, m, 3426361660367, 44544, 2489045707724, 1295495438330);
    lemma_square_multiply_step(2574810449627, 178179, m, 2557613651206, 89089, 1295495438330, 4025756791381);
    lemma_square_multiply_step(1426893722321, 356359, m, 2574810449627, 178179, 4025756791381, 2005087742342);
    lemma_square_multiply_step(2588902022278, 712719, m, 1426893722321, 356359, 2005087742342, 5349017193743);
    lemma_square_multiply_step(719713494927, 1425439, m, 2588902022278, 712719, 5349017193743, 3116242145008);
    lemma_square_multiply_step(1108958050908, 2850878, m, 719713494927, 1425439, 3116242145008, 3116242145008);
    lemma_square_multiply_step(3306456489333, 5701756, m, 1108958050908, 2850878, 3116242145008, 3116242145008);
    lemma_square_multiply_step(4830358385714, 11403513, m, 3306456489333, 5701756, 3116242145008, 3111458676975);
    lemma_square_multiply_step(4441568341660, 22807027, m, 4830358385714, 11403513, 3111458676975, 4504258188193);
    lemma_square_multiply_step(815730721, 45614055, m, 4441568341660, 22807027, 4504258188193, 4170830691369);
    lemma_square_multiply_step(28561, 91228110, m, 815730721, 45614055, 4170830691369, 4170830691369);
    lemma_square_multiply_step(169, 182456220, m, 28561, 91228110, 4170830691369, 4170830691369);
    lemma_square_multiply_step(13, 364912440, m, 169, 182456220, 4170830691369, 4170830691369);
    lemma_square_multiply(13, 364912440, m);
}

/// The factorisation of `5594472617640`, one less than the largest prime of
/// the group order.
pub open spec fn witness_order_factors() -> Seq<(nat, nat)> {
    Seq::new(
        6,
        |i: int|
            if i == 0 {
                (2nat, 3nat)
            } else if i == 1 {
                (3nat, 1nat)
            } else if i == 2 {
                (5nat, 1nat)
            } else if i == 3 {
                (1427nat, 1nat)
            } else if i == 4 {
                (2131nat, 1nat)
            } else {
                (15331nat, 1nat)
            },
    )
}

/// The list is that factorisation.
pub proof fn lemma_witness_order_factors()
    ensures
        is_factorization(witness_order_factors(), 5594472617640),
{
    let f0 = Seq::<(nat, nat)>::empty();
    assert(prime_power_product(f0) == 1);
    lemma_prime_2();
    assert(pow(2, 3) == 8) by {
        reveal_with_fuel(pow, 4);
    }
    lemma_list_extends(f0, 2, 3);
    let f1 = f0.push((2nat, 3nat));
    assert(prime_power_product(f1) == 8);
    lemma_prime_3();
    lemma_pow1(3);
    lemma_list_extends(f1, 3, 1);
    let f2 = f1.push((3nat, 1nat));
    assert(prime_power_product(f2) == 24);
    lemma_prime_5();
    lemma_pow1(5);
    lemma_list_extends(f2, 5, 1);
    let f3 = f2.push((5nat, 1nat));
    assert(prime_power_product(f3) == 120);
    lemma_prime_1427();
    lemma_pow1(1427);
    lemma_list_extends(f3, 1427, 1);
    let f4 = f3.push((1427nat, 1nat));
    assert(prime_power_product(f4) == 171240);
    lemma_prime_2131();
    lemma_pow1(2131);
    lemma_list_extends(f4, 2131, 1);
    let f5 = f4.push((2131nat, 1nat));
    assert(prime_power_product(f5) == 364912440);
    lemma_prime_15331();
    lemma_pow1(15331);
    lemma_list_extends(f5, 15331, 1);
    let f6 = f5.push((15331nat, 1nat));
    assert(prime_power_product(f6) == 5594472617640);
    assert(f6 =~= witness_order_factors());
}

/// 13 has the order `r - 1` modulo `r = 5594472617641`.
pub proof fn lemma_witness_order()
    ensures
        has_order(13, LARGEST_ORDER_PRIME as nat, (LARGEST_ORDER_PRIME - 1) as nat),
{
    let f = witness_order_factors();
    lemma_witness_order_factors();
    lemma_witness_power();
    lemma_witness_power_without_2();
    lemma_witness_power_without_3();
    lemma_witness_power_without_5();
    lemma_witness_power_without_1427();
    lemma_witness_power_without_2131();
    lemma_witness_power_without_15331();
    assert forall|i: int| 0 <= i < f.len() implies pow_mod(
        13,
        5594472617640nat / (#[trigger] f[i]).0,
        5594472617641,
    ) != 1 by {
        if i == 0 {
            assert(f[0].0 == 2);
            assert(5594472617640nat / 2 == 2797236308820);
        } else if i == 1 {
            assert(f[1].0 == 3);
            assert(5594472617640nat / 3 == 1864824205880);
        } else if i == 2 {
            assert(f[2].0 == 5);
            assert(5594472617640nat / 5 == 1118894523528);
        } else if i == 3 {
            assert(f[3].0 == 1427);
            assert(5594472617640nat / 1427 == 3920443320);
        } else if i == 4 {
            assert(f[4].0 == 2131);
            assert(5594472617640nat / 2131 == 2625280440);
        } else if i == 5 {
            assert(f[5].0 == 15331);
            assert(5594472617640nat / 15331 == 364912440);
        }
    }
    lemma_order_by_prime_checks(13, 5594472617641, 5594472617640, f);
}

/// The largest prime factor of the group order is prime.
pub proof fn lemma_largest_order_prime()
    ensures
        is_prime(LARGEST_ORDER_PRIME as nat),
{
    lemma_witness_order();
    lemma_prime_by_generator(13, LARGEST_ORDER_PRIME as nat);
}

} // verus!
