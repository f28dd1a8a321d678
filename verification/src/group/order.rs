//! The order of the generator five modulo `p = 2^64 - 59`.

use crate::exponent::has_order;
use crate::factor::{is_factorization, prime_power_product};
use crate::generator::{lemma_order_by_prime_checks, lemma_prime_by_generator};
use crate::group::large_prime::lemma_largest_order_prime;
use crate::group::powers::{
    lemma_list_extends, lemma_square_multiply, lemma_square_multiply_start,
    lemma_square_multiply_step,
};
use crate::group::small_primes::{lemma_prime_11, lemma_prime_137, lemma_prime_2, lemma_prime_547};
use crate::modular::pow_mod;
use crate::numbers::is_prime;
use vstd::arithmetic::power::*;
use vstd::prelude::*;

verus! {

/// Five to the power `p - 1` is one modulo `p = 2^64 - 59`.
proof fn lemma_generator_power()
    ensures
        pow_mod(5, 18446744073709551556, 18446744073709551557) == 1,
{
    let m: nat = 18446744073709551557;
    lemma_square_multiply_start(6233151009980344316, m);
    lemma_square_multiply_step(9461373143708613782, 1, m, 6233151009980344316, 0, 1, 9461373143708613782);
    lemma_square_multiply_step(1889736140511999383, 3, m, 9461373143708613782, 1, 9461373143708613782, 12963230522892385290);
    lemma_square_multiply_step(1092079684249632059, 7, m, 1889736140511999383, 3, 12963230522892385290, 14385899879449836620);
    lemma_square_multiply_step(5717690889783552190, 15, m, 1092079684249632059, 7, 14385899879449836620, 16879685983160448395);
    lemma_square_multiply_step(6162700080674673425, 31, m, 5717690889783552190, 15, 16879685983160448395, 5601993096127046438);
    lemma_square_multiply_step(3441747922176435839, 63, m, 6162700080674673425, 31, 5601993096127046438, 13622706278741395379);
    lemma_square_multiply_step(8709774815948640949, 127, m, 3441747922176435839, 63, 13622706278741395379, 2666194376007645716);
    lemma_square_multiply_step(9858726763576281413, 255, m, 8709774815948640949, 127, 2666194376007645716, 5725653840763336046);
    lemma_square_multiply_step(6758871358677544876, 511, m, 9858726763576281413, 255, 5725653840763336046, 12716743226466606983);
    lemma_square_multiply_step(14737552514736216288, 1023, m, 6758871358677544876, 511, 12716743226466606983, 8505492515493207746);
    lemma_square_multiply_step(17905815807913564819, 2047, m, 14737552514736216288, 1023, 8505492515493207746, 17095059308031690687);
    lemma_square_multiply_step(16214035004318171419, 4095, m, 17905815807913564819, 2047, 17095059308031690687, 8230663314216114070);
    lemma_square_multiply_step(13113112479237740367, 8191, m, 16214035004318171419, 4095, 8230663314216114070, 11041187142955248512);
    lemma_square_multiply_step(17511087668325053833, 16383, m, 13113112479237740367, 8191, 11041187142955248512, 4373027086078440531);
    lemma_square_multiply_step(6255121075275124418, 32767, m, 17511087668325053833, 16383, 4373027086078440531, 8121848730417608813);
    lemma_square_multiply_step(16613698103515770845, 65535, m, 6255121075275124418, 32767, 8121848730417608813, 16947453983657243600);
    lemma_square_multiply_step(9365055682769371805, 131071, m, 16613698103515770845, 65535, 16947453983657243600, 12900439606407437202);
    lemma_square_multiply_step(13612175654849961152, 262143, m, 9365055682769371805, 131071, 12900439606407437202, 287273022514116503);
    lemma_square_multiply_step(14933270144598305465, 524287, m, 13612175654849961152, 262143, 287273022514116503, 17192716701090382119);
    lemma_square_multiply_step(445927949734800028, 1048575, m, 14933270144598305465, 524287, 17192716701090382119, 2325728880311884824);
    lemma_square_multiply_step(17193097046975093193, 2097151, m, 445927949734800028, 1048575, 2325728880311884824, 941689168981270835);
    lemma_square_multiply_step(3188506210948363057, 4194303, m, 17193097046975093193, 2097151, 941689168981270835, 8180713768783425638);
    lemma_square_multiply_step(3710281246220674277, 8388607, m, 3188506210948363057, 4194303, 8180713768783425638, 12065100268098537878);
    lemma_square_multiply_step(13341136930053093990, 16777215, m, 3710281246220674277, 8388607, 12065100268098537878, 4325227718831972783);
    lemma_square_multiply_step(16644653896653578979, 33554431, m, 13341136930053093990, 16777215, 4325227718831972783, 13281525605176956786);
    lemma_square_multiply_step(6464211175936331, 67108863, m, 16644653896653578979, 33554431, 13281525605176956786, 9551737292365793945);
    lemma_square_multiply_step(8828553966152373015, 134217727, m, 6464211175936331, 67108863, 9551737292365793945, 1373796379615747639);
    lemma_square_multiply_step(16241708316400123481, 268435455, m, 8828553966152373015, 134217727, 1373796379615747639, 160633281865931099);
    lemma_square_multiply_step(556190385122527672, 536870911, m, 16241708316400123481, 268435455, 160633281865931099, 17714426784558062896);
    lemma_square_multiply_step(2991463076310384099, 1073741823, m, 556190385122527672, 536870911, 17714426784558062896, 12261609428060002712);
    lemma_square_multiply_step(15351824094489159645, 2147483647, m, 2991463076310384099, 1073741823, 12261609428060002712, 3569459086738498874);
    lemma_square_multiply_step(1576473475639456844, 4294967295, m, 15351824094489159645, 2147483647, 3569459086738498874, 17166765788110047154);
    lemma_square_multiply_step(11523160684886753759, 8589934591, m, 1576473475639456844, 4294967295, 17166765788110047154, 6728954301299732392);
    lemma_square_multiply_step(5412900133042405544, 17179869183, m, 11523160684886753759, 8589934591, 6728954301299732392, 8893138309622462071);
    lemma_square_multiply_step(6284386403210984063, 34359738367, m, 5412900133042405544, 17179869183, 8893138309622462071, 15099574796411597240);
    lemma_square_multiply_step(1396518943188247901, 68719476735, m, 6284386403210984063, 34359738367, 15099574796411597240, 7623702507517057112);
    lemma_square_multiply_step(5847455936708833653, 137438953471, m, 1396518943188247901, 68719476735, 7623702507517057112, 622463442699432138);
    lemma_square_multiply_step(17953156225580899288, 274877906943, m, 5847455936708833653, 137438953471, 622463442699432138, 16863708801295860720);
    lemma_square_multiply_step(14840014957746116584, 549755813887, m, 17953156225580899288, 274877906943, 16863708801295860720, 3088757535640668245);
    lemma_square_multiply_step(18041873484420870050, 1099511627775, m, 14840014957746116584, 549755813887, 3088757535640668245, 10375932393949319628);
    lemma_square_multiply_step(5645798515802380655, 2199023255551, m, 18041873484420870050, 1099511627775, 10375932393949319628, 11215005063568102412);
    lemma_square_multiply_step(1679218919499661140, 4398046511103, m, 5645798515802380655, 2199023255551, 11215005063568102412, 11074407371724010931);
    lemma_square_multiply_step(15743998008476443485, 8796093022207, m, 1679218919499661140, 4398046511103, 11074407371724010931, 12467281793452369363);
    lemma_square_multiply_step(15155659663008086131, 17592186044415, m, 15743998008476443485, 8796093022207, 12467281793452369363, 18280444374497143370);
    lemma_square_multiply_step(12697109005519127907, 35184372088831, m, 15155659663008086131, 17592186044415, 18280444374497143370, 4858936431725259344);
    lemma_square_multiply_step(889610147770376167, 70368744177663, m, 12697109005519127907, 35184372088831, 4858936431725259344, 5574150722171267644);
    lemma_square_multiply_step(15568778599148413699, 140737488355327, m, 889610147770376167, 70368744177663, 5574150722171267644, 4912782734113334137);
    lemma_square_multiply_step(8807617805419420049, 281474976710655, m, 15568778599148413699, 140737488355327, 4912782734113334137, 15831582099434309658);
    lemma_square_multiply_step(308463035671930839, 562949953421311, m, 8807617805419420049, 281474976710655, 15831582099434309658, 4739463693954937577);
    lemma_square_multiply_step(15970074089182453816, 1125899906842623, m, 308463035671930839, 562949953421311, 4739463693954937577, 16978262909633692589);
    lemma_square_multiply_step(6974885541850230623, 2251799813685247, m, 15970074089182453816, 1125899906842623, 16978262909633692589, 17111264804298407764);
    lemma_square_multiply_step(13909410051497879145, 4503599627370495, m, 6974885541850230623, 2251799813685247, 17111264804298407764, 13939334129810744361);
    lemma_square_multiply_step(13588953142645802954, 9007199254740991, m, 13909410051497879145, 4503599627370495, 13939334129810744361, 1546533975585252318);
    lemma_square_multiply_step(11476898102780853425, 18014398509481983, m, 13588953142645802954, 9007199254740991, 1546533975585252318, 5768417316652214248);
    lemma_square_multiply_step(3041539451533763924, 36028797018963967, m, 11476898102780853425, 18014398509481983, 5768417316652214248, 8356889165382045333);
    lemma_square_multiply_step(4077508240081661108, 72057594037927935, m, 3041539451533763924, 36028797018963967, 8356889165382045333, 2493299249101674340);
    lemma_square_multiply_step(1465414682306378817, 144115188075855871, m, 4077508240081661108, 72057594037927935, 2493299249101674340, 992633681774896508);
    lemma_square_multiply_step(3456381684999818973, 288230376151711743, m, 1465414682306378817, 144115188075855871, 992633681774896508, 1682343059522311102);
    lemma_square_multiply_step(3273344365508825691, 576460752303423486, m, 3456381684999818973, 288230376151711743, 1682343059522311102, 1682343059522311102);
    lemma_square_multiply_step(152587890625, 1152921504606846972, m, 3273344365508825691, 576460752303423486, 1682343059522311102, 1682343059522311102);
    lemma_square_multiply_step(390625, 2305843009213693944, m, 152587890625, 1152921504606846972, 1682343059522311102, 1682343059522311102);
    lemma_square_multiply_step(625, 4611686018427387889, m, 390625, 2305843009213693944, 1682343059522311102, 1);
    lemma_square_multiply_step(25, 9223372036854775778, m, 625, 4611686018427387889, 1, 1);
    lemma_square_multiply_step(5, 18446744073709551556, m, 25, 9223372036854775778, 1, 1);
    lemma_square_multiply(5, 18446744073709551556, m);
}

/// Five to the power `(p - 1) / 2` modulo `p = 2^64 - 59`.
proof fn lemma_generator_power_without_2()
    ensures
        pow_mod(5, 9223372036854775778, 18446744073709551557) == 18446744073709551556,
{
    let m: nat = 18446744073709551557;
    lemma_square_multiply_start(9461373143708613782, m);
    lemma_square_multiply_step(1889736140511999383, 1, m, 9461373143708613782, 0, 1, 1889736140511999383);
    lemma_square_multiply_step(1092079684249632059, 3, m, 1889736140511999383, 1, 1889736140511999383, 1663494609904273161);
    lemma_square_multiply_step(5717690889783552190, 7, m, 1092079684249632059, 3, 1663494609904273161, 11141497372250967853);
    lemma_square_multiply_step(6162700080674673425, 15, m, 5717690889783552190, 7, 11141497372250967853, 6680318004773435402);
    lemma_square_multiply_step(3441747922176435839, 31, m, 6162700080674673425, 15, 6680318004773435402, 4917304778045044762);
    lemma_square_multiply_step(8709774815948640949, 63, m, 3441747922176435839, 31, 4917304778045044762, 15669143304359571268);
    lemma_square_multiply_step(9858726763576281413, 127, m, 8709774815948640949, 63, 15669143304359571268, 3845397459759235186);
    lemma_square_multiply_step(6758871358677544876, 255, m, 9858726763576281413, 127, 3845397459759235186, 10260228553544693225);
    lemma_square_multiply_step(14737552514736216288, 511, m, 6758871358677544876, 255, 10260228553544693225, 12078178521408011446);
    lemma_square_multiply_step(17905815807913564819, 1023, m, 14737552514736216288, 511, 12078178521408011446, 6213097523971558223);
    lemma_square_multiply_step(16214035004318171419, 2047, m, 17905815807913564819, 1023, 6213097523971558223, 1706209414452311315);
    lemma_square_multiply_step(13113112479237740367, 4095, m, 16214035004318171419, 2047, 1706209414452311315, 13041318343958360738);
    lemma_square_multiply_step(17511087668325053833, 8191, m, 13113112479237740367, 4095, 13041318343958360738, 16704876810382558081);
    lemma_square_multiply_step(6255121075275124418, 16383, m, 17511087668325053833, 8191, 16704876810382558081, 233350179935646346);
    lemma_square_multiply_step(16613698103515770845, 32767, m, 6255121075275124418, 16383, 233350179935646346, 4396711113910899373);
    lemma_square_multiply_step(9365055682769371805, 65535, m, 16613698103515770845, 32767, 4396711113910899373, 6804092229812801923);
    lemma_square_multiply_step(13612175654849961152, 131071, m, 9365055682769371805, 65535, 6804092229812801923, 10711086147093847245);
    lemma_square_multiply_step(14933270144598305465, 262143, m, 13612175654849961152, 131071, 10711086147093847245, 482388488178203203);
    lemma_square_multiply_step(445927949734800028, 524287, m, 14933270144598305465, 262143, 482388488178203203, 11973039598453505009);
    lemma_square_multiply_step(17193097046975093193, 1048575, m, 445927949734800028, 524287, 11973039598453505009, 11270809174322327438);
    lemma_square_multiply_step(3188506210948363057, 2097151, m, 17193097046975093193, 1048575, 11270809174322327438, 7469596947034671246);
    lemma_square_multiply_step(3710281246220674277, 4194303, m, 3188506210948363057, 2097151, 7469596947034671246, 6269367566251356321);
    lemma_square_multiply_step(13341136930053093990, 8388607, m, 3710281246220674277, 4194303, 6269367566251356321, 16795125449896678470);
    lemma_square_multiply_step(16644653896653578979, 16777215, m, 13341136930053093990, 8388607, 16795125449896678470, 10186936612250714663);
    lemma_square_multiply_step(6464211175936331, 33554431, m, 16644653896653578979, 16777215, 10186936612250714663, 1077576724408942839);
    lemma_square_multiply_step(8828553966152373015, 67108863, m, 6464211175936331, 33554431, 1077576724408942839, 6946509764590309295);
    lemma_square_multiply_step(16241708316400123481, 134217727, m, 8828553966152373015, 67108863, 6946509764590309295, 7680357749630428292);
    lemma_square_multiply_step(556190385122527672, 268435455, m, 16241708316400123481, 134217727, 7680357749630428292, 9992684314423674472);
    lemma_square_multiply_step(2991463076310384099, 536870911, m, 556190385122527672, 268435455, 9992684314423674472, 5608800722996537174);
    lemma_square_multiply_step(15351824094489159645, 1073741823, m, 2991463076310384099, 536870911, 5608800722996537174, 16008469429750380307);
    lemma_square_multiply_step(1576473475639456844, 2147483647, m, 15351824094489159645, 1073741823, 16008469429750380307, 9651338859734214471);
    lemma_square_multiply_step(11523160684886753759, 4294967295, m, 1576473475639456844, 2147483647, 9651338859734214471, 2360035576066000180);
    lemma_square_multiply_step(5412900133042405544, 8589934591, m, 11523160684886753759, 4294967295, 2360035576066000180, 3545455693455492164);
    lemma_square_multiply_step(6284386403210984063, 17179869183, m, 5412900133042405544, 8589934591, 3545455693455492164, 7520284841598462187);
    lemma_square_multiply_step(1396518943188247901, 34359738367, m, 6284386403210984063, 17179869183, 7520284841598462187, 13800058462992482041);
    lemma_square_multiply_step(5847455936708833653, 68719476735, m, 1396518943188247901, 34359738367, 13800058462992482041, 15032107289688823240);
    lemma_square_multiply_step(17953156225580899288, 137438953471, m, 5847455936708833653, 68719476735, 15032107289688823240, 4672186583945753880);
    lemma_square_multiply_step(14840014957746116584, 274877906943, m, 17953156225580899288, 137438953471, 4672186583945753880, 8652437593782870123);
    lemma_square_multiply_step(18041873484420870050, 549755813887, m, 14840014957746116584, 274877906943, 8652437593782870123, 11799414875273135271);
    lemma_square_multiply_step(5645798515802380655, 1099511627775, m, 18041873484420870050, 549755813887, 11799414875273135271, 6892475730903096506);
    lemma_square_multiply_step(1679218919499661140, 2199023255551, m, 5645798515802380655, 1099511627775, 6892475730903096506, 11245698603518184489);
    lemma_square_multiply_step(15743998008476443485, 4398046511103, m, 1679218919499661140, 2199023255551, 11245698603518184489, 10114113066216370900);
    lemma_square_multiply_step(15155659663008086131, 8796093022207, m, 15743998008476443485, 4398046511103, 10114113066216370900, 6080544372427331840);
    lemma_square_multiply_step(12697109005519127907, 17592186044415, m, 15155659663008086131, 8796093022207, 6080544372427331840, 16902834452722957918);
    lemma_square_multiply_step(889610147770376167, 35184372088831, m, 12697109005519127907, 17592186044415, 16902834452722957918, 9155780243641768899);
    lemma_square_multiply_step(15568778599148413699, 70368744177663, m, 889610147770376167, 35184372088831, 9155780243641768899, 4979187526705772634);
    lemma_square_multiply_step(8807617805419420049, 140737488355327, m, 15568778599148413699, 70368744177663, 4979187526705772634, 4552764441377918478);
    lemma_square_multiply_step(308463035671930839, 281474976710655, m, 8807617805419420049, 140737488355327, 4552764441377918478, 1057817149027281012);
    lemma_square_multiply_step(15970074089182453816, 562949953421311, m, 308463035671930839, 281474976710655, 1057817149027281012, 14768267724441377898);
    lemma_square_multiply_step(6974885541850230623, 1125899906842623, m, 15970074089182453816, 562949953421311, 14768267724441377898, 3692420370666630002);
    lemma_square_multiply_step(13909410051497879145, 2251799813685247, m, 6974885541850230623, 1125899906842623, 3692420370666630002, 663766464295362086);
    lemma_square_multiply_step(13588953142645802954, 4503599627370495, m, 13909410051497879145, 2251799813685247, 663766464295362086, 2336110508871130202);
    lemma_square_multiply_step(11476898102780853425, 9007199254740991, m, 13588953142645802954, 4503599627370495, 2336110508871130202, 14911612360738452776);
    lemma_square_multiply_step(3041539451533763924, 18014398509481983, m, 11476898102780853425, 9007199254740991, 14911612360738452776, 1409170289738537006);
    lemma_square_multiply_step(4077508240081661108, 36028797018963967, m, 3041539451533763924, 18014398509481983, 1409170289738537006, 5468901624872798309);
    lemma_square_multiply_step(1465414682306378817, 72057594037927935, m, 4077508240081661108, 36028797018963967, 5468901624872798309, 4553789803622763934);
    lemma_square_multiply_step(3456381684999818973, 144115188075855871, m, 1465414682306378817, 72057594037927935, 4553789803622763934, 11167006856559035424);
    lemma_square_multiply_step(3273344365508825691, 288230376151711743, m, 3456381684999818973, 144115188075855871, 11167006856559035424, 13281655733070877121);
    lemma_square_multiply_step(152587890625, 576460752303423486, m, 3273344365508825691, 288230376151711743, 13281655733070877121, 13281655733070877121);
    lemma_square_multiply_step(390625, 1152921504606846972, m, 152587890625, 576460752303423486, 13281655733070877121, 13281655733070877121);
    lemma_square_multiply_step(625, 2305843009213693944, m, 390625, 1152921504606846972, 13281655733070877121, 13281655733070877121);
    lemma_square_multiply_step(25, 4611686018427387889, m, 625, 2305843009213693944, 13281655733070877121, 18446744073709551556);
    lemma_square_multiply_step(5, 9223372036854775778, m, 25, 4611686018427387889, 18446744073709551556, 18446744073709551556);
    lemma_square_multiply(5, 9223372036854775778, m);
}

/// Five to the power `(p - 1) / 11` modulo `p = 2^64 - 59`.
proof fn lemma_generator_power_without_11()
    ensures
        pow_mod(5, 1676976733973595596, 18446744073709551557) == 14926365385974592157,
{
    let m: nat = 18446744073709551557;
    lemma_square_multiply_start(1092079684249632059, m);
    lemma_square_multiply_step(5717690889783552190, 1, m, 1092079684249632059, 0, 1, 5717690889783552190);
    lemma_square_multiply_step(6162700080674673425, 2, m, 5717690889783552190, 1, 5717690889783552190, 5717690889783552190);
    lemma_square_multiply_step(3441747922176435839, 5, m, 6162700080674673425, 2, 5717690889783552190, 5117749003693449452);
    lemma_square_multiply_step(8709774815948640949, 11, m, 3441747922176435839, 5, 5117749003693449452, 16094363618127339752);
    lemma_square_multiply_step(9858726763576281413, 23, m, 8709774815948640949, 11, 16094363618127339752, 6642319652865114691);
    lemma_square_multiply_step(6758871358677544876, 46, m, 9858726763576281413, 23, 6642319652865114691, 6642319652865114691);
    lemma_square_multiply_step(14737552514736216288, 93, m, 6758871358677544876, 46, 6642319652865114691, 1397183456442116589);
    lemma_square_multiply_step(17905815807913564819, 186, m, 14737552514736216288, 93, 1397183456442116589, 1397183456442116589);
    lemma_square_multiply_step(16214035004318171419, 372, m, 17905815807913564819, 186, 1397183456442116589, 1397183456442116589);
    lemma_square_multiply_step(13113112479237740367, 744, m, 16214035004318171419, 372, 1397183456442116589, 1397183456442116589);
    lemma_square_multiply_step(17511087668325053833, 1489, m, 13113112479237740367, 744, 1397183456442116589, 5893585451022677193);
    lemma_square_multiply_step(6255121075275124418, 2978, m, 17511087668325053833, 1489, 5893585451022677193, 5893585451022677193);
    lemma_square_multiply_step(16613698103515770845, 5957, m, 6255121075275124418, 2978, 5893585451022677193, 18180567832492959279);
    lemma_square_multiply_step(9365055682769371805, 11915, m, 16613698103515770845, 5957, 18180567832492959279, 17653852469650642062);
    lemma_square_multiply_step(13612175654849961152, 23831, m, 9365055682769371805, 11915, 17653852469650642062, 13869372711062555112);
    lemma_square_multiply_step(14933270144598305465, 47662, m, 13612175654849961152, 23831, 13869372711062555112, 13869372711062555112);
    lemma_square_multiply_step(445927949734800028, 95325, m, 14933270144598305465, 47662, 13869372711062555112, 15107882282701174220);
    lemma_square_multiply_step(17193097046975093193, 190650, m, 445927949734800028, 95325, 15107882282701174220, 15107882282701174220);
    lemma_square_multiply_step(3188506210948363057, 381300, m, 17193097046975093193, 190650, 15107882282701174220, 15107882282701174220);
    lemma_square_multiply_step(3710281246220674277, 762600, m, 3188506210948363057, 381300, 15107882282701174220, 15107882282701174220);
    lemma_square_multiply_step(13341136930053093990, 1525201, m, 3710281246220674277, 762600, 15107882282701174220, 2330877371168184894);
    lemma_square_multiply_step(16644653896653578979, 3050402, m, 13341136930053093990, 1525201, 2330877371168184894, 2330877371168184894);
    lemma_square_multiply_step(6464211175936331, 6100805, m, 16644653896653578979, 3050402, 2330877371168184894, 1636270930433003180);
    lemma_square_multiply_step(8828553966152373015, 12201611, m, 6464211175936331, 6100805, 1636270930433003180, 5927554976936086174);
    lemma_square_multiply_step(16241708316400123481, 24403223, m, 8828553966152373015, 12201611, 5927554976936086174, 16531288916848708187);
    lemma_square_multiply_step(556190385122527672, 48806446, m, 16241708316400123481, 24403223, 16531288916848708187, 16531288916848708187);
    lemma_square_multiply_step(2991463076310384099, 97612893, m, 556190385122527672, 48806446, 16531288916848708187, 411378908699812374);
    lemma_square_multiply_step(15351824094489159645, 195225786, m, 2991463076310384099, 97612893, 411378908699812374, 411378908699812374);
    lemma_square_multiply_step(1576473475639456844, 390451572, m, 15351824094489159645, 195225786, 411378908699812374, 411378908699812374);
    lemma_square_multiply_step(11523160684886753759, 780903144, m, 1576473475639456844, 390451572, 411378908699812374, 411378908699812374);
    lemma_square_multiply_step(5412900133042405544, 1561806289, m, 11523160684886753759, 780903144, 411378908699812374, 8089079996261805713);
    lemma_square_multiply_step(6284386403210984063, 3123612578, m, 5412900133042405544, 1561806289, 8089079996261805713, 8089079996261805713);
    lemma_square_multiply_step(1396518943188247901, 6247225157, m, 6284386403210984063, 3123612578, 8089079996261805713, 18095154135017483549);
    lemma_square_multiply_step(5847455936708833653, 12494450315, m, 1396518943188247901, 6247225157, 18095154135017483549, 2306945325726321697);
    lemma_square_multiply_step(17953156225580899288, 24988900631, m, 5847455936708833653, 12494450315, 2306945325726321697, 6831271678834538923);
    lemma_square_multiply_step(14840014957746116584, 49977801262, m, 17953156225580899288, 24988900631, 6831271678834538923, 6831271678834538923);
    lemma_square_multiply_step(18041873484420870050, 99955602525, m, 14840014957746116584, 49977801262, 6831271678834538923, 10307591268825331645);
    lemma_square_multiply_step(5645798515802380655, 199911205050, m, 18041873484420870050, 99955602525, 10307591268825331645, 10307591268825331645);
    lemma_square_multiply_step(1679218919499661140, 399822410100, m, 5645798515802380655, 199911205050, 10307591268825331645, 10307591268825331645);
    lemma_square_multiply_step(15743998008476443485, 799644820200, m, 1679218919499661140, 399822410100, 10307591268825331645, 10307591268825331645);
    lemma_square_multiply_step(15155659663008086131, 1599289640401, m, 15743998008476443485, 799644820200, 10307591268825331645, 7045189158891188339);
    lemma_square_multiply_step(12697109005519127907, 3198579280802, m, 15155659663008086131, 1599289640401, 7045189158891188339, 7045189158891188339);
    lemma_square_multiply_step(889610147770376167, 6397158561605, m, 12697109005519127907, 3198579280802, 7045189158891188339, 7564783089899056032);
    lemma_square_multiply_step(15568778599148413699, 12794317123211, m, 889610147770376167, 6397158561605, 7564783089899056032, 11319352373053760992);
    lemma_square_multiply_step(8807617805419420049, 25588634246423, m, 15568778599148413699, 12794317123211, 11319352373053760992, 10811874391519741087);
    lemma_square_multiply_step(308463035671930839, 51177268492846, m, 8807617805419420049, 25588634246423, 10811874391519741087, 10811874391519741087);
    lemma_square_multiply_step(15970074089182453816, 102354536985693, m, 308463035671930839, 51177268492846, 10811874391519741087, 1241234943303388039);
    lemma_square_multiply_step(6974885541850230623, 204709073971386, m, 15970074089182453816, 102354536985693, 1241234943303388039, 1241234943303388039);
    lemma_square_multiply_step(13909410051497879145, 409418147942772, m, 6974885541850230623, 204709073971386, 1241234943303388039, 1241234943303388039);
    lemma_square_multiply_step(13588953142645802954, 818836295885544, m, 13909410051497879145, 409418147942772, 1241234943303388039, 1241234943303388039);
    lemma_square_multiply_step(11476898102780853425, 1637672591771089, m, 13588953142645802954, 818836295885544, 1241234943303388039, 7005339641543272745);
    lemma_square_multiply_step(3041539451533763924, 3275345183542178, m, 11476898102780853425, 1637672591771089, 7005339641543272745, 7005339641543272745);
    lemma_square_multiply_step(4077508240081661108, 6550690367084357, m, 3041539451533763924, 3275345183542178, 7005339641543272745, 8848430292266210287);
    lemma_square_multiply_step(1465414682306378817, 13101380734168715, m, 4077508240081661108, 6550690367084357, 8848430292266210287, 4818739069007452183);
    lemma_square_multiply_step(3456381684999818973, 26202761468337431, m, 1465414682306378817, 13101380734168715, 4818739069007452183, 6999856153182394545);
    lemma_square_multiply_step(3273344365508825691, 52405522936674862, m, 3456381684999818973, 26202761468337431, 6999856153182394545, 6999856153182394545);
    lemma_square_multiply_step(152587890625, 104811045873349724, m, 3273344365508825691, 52405522936674862, 6999856153182394545, 6999856153182394545);
    lemma_square_multiply_step(390625, 209622091746699449, m, 152587890625, 104811045873349724, 6999856153182394545, 13276023127170501186);
    lemma_square_multiply_step(625, 419244183493398899, m, 390625, 209622091746699449, 13276023127170501186, 14926365385974592157);
    lemma_square_multiply_step(25, 838488366986797798, m, 625, 419244183493398899, 14926365385974592157, 14926365385974592157);
    lemma_square_multiply_step(5, 1676976733973595596, m, 25, 838488366986797798, 14926365385974592157, 14926365385974592157);
    lemma_square_multiply(5, 1676976733973595596, m);
}

/// Five to the power `(p - 1) / 137` modulo `p = 2^64 - 59`.
proof fn lemma_generator_power_without_137()
    ensures
        pow_mod(5, 134647766961383588, 18446744073709551557) == 3346097404549838006,
{
    let m: nat = 18446744073709551557;
    lemma_square_multiply_start(8709774815948640949, m);
    lemma_square_multiply_step(9858726763576281413, 1, m, 8709774815948640949, 0, 1, 9858726763576281413);
    lemma_square_multiply_step(6758871358677544876, 3, m, 9858726763576281413, 1, 9858726763576281413, 3853465500220786823);
    lemma_square_multiply_step(14737552514736216288, 7, m, 6758871358677544876, 3, 3853465500220786823, 14080193885612433839);
    lemma_square_multiply_step(17905815807913564819, 14, m, 14737552514736216288, 7, 14080193885612433839, 14080193885612433839);
    lemma_square_multiply_step(16214035004318171419, 29, m, 17905815807913564819, 14, 14080193885612433839, 8978224654723884626);
    lemma_square_multiply_step(13113112479237740367, 59, m, 16214035004318171419, 29, 8978224654723884626, 10915884236906737063);
    lemma_square_multiply_step(17511087668325053833, 119, m, 13113112479237740367, 59, 10915884236906737063, 7163632795351015624);
    lemma_square_multiply_step(6255121075275124418, 239, m, 17511087668325053833, 119, 7163632795351015624, 8230284070181434185);
    lemma_square_multiply_step(16613698103515770845, 478, m, 6255121075275124418, 239, 8230284070181434185, 8230284070181434185);
    lemma_square_multiply_step(9365055682769371805, 956, m, 16613698103515770845, 478, 8230284070181434185, 8230284070181434185);
    lemma_square_multiply_step(13612175654849961152, 1913, m, 9365055682769371805, 956, 8230284070181434185, 2032909169096409803);
    lemma_square_multiply_step(14933270144598305465, 3826, m, 13612175654849961152, 1913, 2032909169096409803, 2032909169096409803);
    lemma_square_multiply_step(445927949734800028, 7653, m, 14933270144598305465, 3826, 2032909169096409803, 6624704017348897011);
    lemma_square_multiply_step(17193097046975093193, 15307, m, 445927949734800028, 7653, 6624704017348897011, 18064554178177662956);
    lemma_square_multiply_step(3188506210948363057, 30615, m, 17193097046975093193, 15307, 18064554178177662956, 14414510996515773654);
    lemma_square_multiply_step(3710281246220674277, 61230, m, 3188506210948363057, 30615, 14414510996515773654, 14414510996515773654);
    lemma_square_multiply_step(13341136930053093990, 122461, m, 3710281246220674277, 61230, 14414510996515773654, 4217146021612321803);
    lemma_square_multiply_step(16644653896653578979, 244922, m, 13341136930053093990, 122461, 4217146021612321803, 4217146021612321803);
    lemma_square_multiply_step(6464211175936331, 489845, m, 16644653896653578979, 244922, 4217146021612321803, 2400761115949509544);
    lemma_square_multiply_step(8828553966152373015, 979691, m, 6464211175936331, 489845, 2400761115949509544, 2654079804933765663);
    lemma_square_multiply_step(16241708316400123481, 1959382, m, 8828553966152373015, 979691, 2654079804933765663, 2654079804933765663);
    lemma_square_multiply_step(556190385122527672, 3918765, m, 16241708316400123481, 1959382, 2654079804933765663, 26919165515562587);
    lemma_square_multiply_step(2991463076310384099, 7837531, m, 556190385122527672, 3918765, 26919165515562587, 2169878673920508126);
    lemma_square_multiply_step(15351824094489159645, 15675063, m, 2991463076310384099, 7837531, 2169878673920508126, 10050757237859866550);
    lemma_square_multiply_step(1576473475639456844, 31350126, m, 15351824094489159645, 15675063, 10050757237859866550, 10050757237859866550);
    lemma_square_multiply_step(11523160684886753759, 62700252, m, 1576473475639456844, 31350126, 10050757237859866550, 10050757237859866550);
    lemma_square_multiply_step(5412900133042405544, 125400504, m, 11523160684886753759, 62700252, 10050757237859866550, 10050757237859866550);
    lemma_square_multiply_step(6284386403210984063, 250801009, m, 5412900133042405544, 125400504, 10050757237859866550, 1219199686596348889);
    lemma_square_multiply_step(1396518943188247901, 501602019, m, 6284386403210984063, 250801009, 1219199686596348889, 280180108475828960);
    lemma_square_multiply_step(5847455936708833653, 1003204039, m, 1396518943188247901, 501602019, 280180108475828960, 9724457475103555473);
    lemma_square_multiply_step(17953156225580899288, 2006408079, m, 5847455936708833653, 1003204039, 9724457475103555473, 14615121545664371709);
    lemma_square_multiply_step(14840014957746116584, 4012816159, m, 17953156225580899288, 2006408079, 14615121545664371709, 17407515099442085324);
    lemma_square_multiply_step(18041873484420870050, 8025632319, m, 14840014957746116584, 4012816159, 17407515099442085324, 7429474658123783735);
    lemma_square_multiply_step(5645798515802380655, 16051264639, m, 18041873484420870050, 8025632319, 7429474658123783735, 687859470518107464);
    lemma_square_multiply_step(1679218919499661140, 32102529278, m, 5645798515802380655, 16051264639, 687859470518107464, 687859470518107464);
    lemma_square_multiply_step(15743998008476443485, 64205058556, m, 1679218919499661140, 32102529278, 687859470518107464, 687859470518107464);
    lemma_square_multiply_step(15155659663008086131, 128410117112, m, 15743998008476443485, 64205058556, 687859470518107464, 687859470518107464);
    lemma_square_multiply_step(12697109005519127907, 256820234225, m, 15155659663008086131, 128410117112, 687859470518107464, 9878574242331279884);
    lemma_square_multiply_step(889610147770376167, 513640468450, m, 12697109005519127907, 256820234225, 9878574242331279884, 9878574242331279884);
    lemma_square_multiply_step(15568778599148413699, 1027280936900, m, 889610147770376167, 513640468450, 9878574242331279884, 9878574242331279884);
    lemma_square_multiply_step(8807617805419420049, 2054561873800, m, 15568778599148413699, 1027280936900, 9878574242331279884, 9878574242331279884);
    lemma_square_multiply_step(308463035671930839, 4109123747600, m, 8807617805419420049, 2054561873800, 9878574242331279884, 9878574242331279884);
    lemma_square_multiply_step(15970074089182453816, 8218247495201, m, 308463035671930839, 4109123747600, 9878574242331279884, 2828356164199282043);
    lemma_square_multiply_step(6974885541850230623, 16436494990403, m, 15970074089182453816, 8218247495201, 2828356164199282043, 5899718191854569624);
    lemma_square_multiply_step(13909410051497879145, 32872989980806, m, 6974885541850230623, 16436494990403, 5899718191854569624, 5899718191854569624);
    lemma_square_multiply_step(13588953142645802954, 65745979961613, m, 13909410051497879145, 32872989980806, 5899718191854569624, 14696109209595788469);
    lemma_square_multiply_step(11476898102780853425, 131491959923226, m, 13588953142645802954, 65745979961613, 14696109209595788469, 14696109209595788469);
    lemma_square_multiply_step(3041539451533763924, 262983919846452, m, 11476898102780853425, 131491959923226, 14696109209595788469, 14696109209595788469);
    lemma_square_multiply_step(4077508240081661108, 525967839692904, m, 3041539451533763924, 262983919846452, 14696109209595788469, 14696109209595788469);
    lemma_square_multiply_step(1465414682306378817, 1051935679385809, m, 4077508240081661108, 525967839692904, 14696109209595788469, 3661855014115129207);
    lemma_square_multiply_step(3456381684999818973, 2103871358771618, m, 1465414682306378817, 1051935679385809, 3661855014115129207, 3661855014115129207);
    lemma_square_multiply_step(3273344365508825691, 4207742717543237, m, 3456381684999818973, 2103871358771618, 3661855014115129207, 2720714483497325730);
    lemma_square_multiply_step(152587890625, 8415485435086474, m, 3273344365508825691, 4207742717543237, 2720714483497325730, 2720714483497325730);
    lemma_square_multiply_step(390625, 16830970870172948, m, 152587890625, 8415485435086474, 2720714483497325730, 2720714483497325730);
    lemma_square_multiply_step(625, 33661941740345897, m, 390625, 16830970870172948, 2720714483497325730, 3346097404549838006);
    lemma_square_multiply_step(25, 67323883480691794, m, 625, 33661941740345897, 3346097404549838006, 3346097404549838006);
    lemma_square_multiply_step(5, 134647766961383588, m, 25, 67323883480691794, 3346097404549838006, 3346097404549838006);
    lemma_square_multiply(5, 134647766961383588, m);
}

/// Five to the power `(p - 1) / 547` modulo `p = 2^64 - 59`.
proof fn lemma_generator_power_without_547()
    ensures
        pow_mod(5, 33723480939139948, 18446744073709551557) == 10807434765896011965,
{
    let m: nat = 18446744073709551557;
    lemma_square_multiply_start(6758871358677544876, m);
    lemma_square_multiply_step(14737552514736216288, 1, m, 6758871358677544876, 0, 1, 14737552514736216288);
    lemma_square_multiply_step(17905815807913564819, 3, m, 14737552514736216288, 1, 14737552514736216288, 258259382251103393);
    lemma_square_multiply_step(16214035004318171419, 7, m, 17905815807913564819, 3, 258259382251103393, 12286928649318220543);
    lemma_square_multiply_step(13113112479237740367, 14, m, 16214035004318171419, 7, 12286928649318220543, 12286928649318220543);
    lemma_square_multiply_step(17511087668325053833, 29, m, 13113112479237740367, 14, 12286928649318220543, 1257914863323765603);
    lemma_square_multiply_step(6255121075275124418, 59, m, 17511087668325053833, 29, 1257914863323765603, 15870186151729366608);
    lemma_square_multiply_step(16613698103515770845, 119, m, 6255121075275124418, 59, 15870186151729366608, 3449206524096275496);
    lemma_square_multiply_step(9365055682769371805, 239, m, 16613698103515770845, 119, 3449206524096275496, 11430949776083084232);
    lemma_square_multiply_step(13612175654849961152, 479, m, 9365055682769371805, 239, 11430949776083084232, 6195254764259851375);
    lemma_square_multiply_step(14933270144598305465, 958, m, 13612175654849961152, 479, 6195254764259851375, 6195254764259851375);
    lemma_square_multiply_step(445927949734800028, 1916, m, 14933270144598305465, 958, 6195254764259851375, 6195254764259851375);
    lemma_square_multiply_step(17193097046975093193, 3833, m, 445927949734800028, 1916, 6195254764259851375, 6250210697057660717);
    lemma_square_multiply_step(3188506210948363057, 7667, m, 17193097046975093193, 3833, 6250210697057660717, 15093498182156446792);
    lemma_square_multiply_step(3710281246220674277, 15335, m, 3188506210948363057, 7667, 15093498182156446792, 16272216013806149880);
    lemma_square_multiply_step(13341136930053093990, 30671, m, 3710281246220674277, 15335, 16272216013806149880, 9305975210050367292);
    lemma_square_multiply_step(16644653896653578979, 61342, m, 13341136930053093990, 30671, 9305975210050367292, 9305975210050367292);
    lemma_square_multiply_step(6464211175936331, 122685, m, 16644653896653578979, 61342, 9305975210050367292, 1285793840345194162);
    lemma_square_multiply_step(8828553966152373015, 245370, m, 6464211175936331, 122685, 1285793840345194162, 1285793840345194162);
    lemma_square_multiply_step(16241708316400123481, 490741, m, 8828553966152373015, 245370, 1285793840345194162, 5864013759124004882);
    lemma_square_multiply_step(556190385122527672, 981482, m, 16241708316400123481, 490741, 5864013759124004882, 5864013759124004882);
    lemma_square_multiply_step(2991463076310384099, 1962964, m, 556190385122527672, 981482, 5864013759124004882, 5864013759124004882);
    lemma_square_multiply_step(15351824094489159645, 3925929, m, 2991463076310384099, 1962964, 5864013759124004882, 2136770009169157777);
    lemma_square_multiply_step(1576473475639456844, 7851859, m, 15351824094489159645, 3925929, 2136770009169157777, 5070329878075600485);
    lemma_square_multiply_step(11523160684886753759, 15703719, m, 1576473475639456844, 7851859, 5070329878075600485, 6356452384083699517);
    lemma_square_multiply_step(5412900133042405544, 31407439, m, 11523160684886753759, 15703719, 6356452384083699517, 8477589437191605655);
    lemma_square_multiply_step(6284386403210984063, 62814878, m, 5412900133042405544, 31407439, 8477589437191605655, 8477589437191605655);
    lemma_square_multiply_step(1396518943188247901, 125629756, m, 6284386403210984063, 62814878, 8477589437191605655, 8477589437191605655);
    lemma_square_multiply_step(5847455936708833653, 251259512, m, 1396518943188247901, 125629756, 8477589437191605655, 8477589437191605655);
    lemma_square_multiply_step(17953156225580899288, 502519025, m, 5847455936708833653, 251259512, 8477589437191605655, 6589531165033782845);
    lemma_square_multiply_step(14840014957746116584, 1005038050, m, 17953156225580899288, 502519025, 6589531165033782845, 6589531165033782845);
    lemma_square_multiply_step(18041873484420870050, 2010076101, m, 14840014957746116584, 1005038050, 6589531165033782845, 13185109004673048255);
    lemma_square_multiply_step(5645798515802380655, 4020152203, m, 18041873484420870050, 2010076101, 13185109004673048255, 3677674281705880431);
    lemma_square_multiply_step(1679218919499661140, 8040304407, m, 5645798515802380655, 4020152203, 3677674281705880431, 5947623212585665851);
    lemma_square_multiply_step(15743998008476443485, 16080608815, m, 1679218919499661140, 8040304407, 5947623212585665851, 12212922298882343363);
    lemma_square_multiply_step(15155659663008086131, 32161217631, m, 15743998008476443485, 16080608815, 12212922298882343363, 11023217761040162433);
    lemma_square_multiply_step(12697109005519127907, 64322435262, m, 15155659663008086131, 32161217631, 11023217761040162433, 11023217761040162433);
    lemma_square_multiply_step(889610147770376167, 128644870525, m, 12697109005519127907, 64322435262, 11023217761040162433, 155801675934680634);
    lemma_square_multiply_step(15568778599148413699, 257289741051, m, 889610147770376167, 128644870525, 155801675934680634, 12307151459998700768);
    lemma_square_multiply_step(8807617805419420049, 514579482103, m, 15568778599148413699, 257289741051, 12307151459998700768, 2329401498456480801);
    lemma_square_multiply_step(308463035671930839, 1029158964207, m, 8807617805419420049, 514579482103, 2329401498456480801, 9076213537129659103);
    lemma_square_multiply_step(15970074089182453816, 2058317928414, m, 308463035671930839, 1029158964207, 9076213537129659103, 9076213537129659103);
    lemma_square_multiply_step(6974885541850230623, 4116635856828, m, 15970074089182453816, 2058317928414, 9076213537129659103, 9076213537129659103);
    lemma_square_multiply_step(13909410051497879145, 8233271713657, m, 6974885541850230623, 4116635856828, 9076213537129659103, 9025505614771451108);
    lemma_square_multiply_step(13588953142645802954, 16466543427314, m, 13909410051497879145, 8233271713657, 9025505614771451108, 9025505614771451108);
    lemma_square_multiply_step(11476898102780853425, 32933086854628, m, 13588953142645802954, 16466543427314, 9025505614771451108, 9025505614771451108);
    lemma_square_multiply_step(3041539451533763924, 65866173709257, m, 11476898102780853425, 32933086854628, 9025505614771451108, 17274792408428604343);
    lemma_square_multiply_step(4077508240081661108, 131732347418515, m, 3041539451533763924, 65866173709257, 17274792408428604343, 11240057973501259481);
    lemma_square_multiply_step(1465414682306378817, 263464694837030, m, 4077508240081661108, 131732347418515, 11240057973501259481, 11240057973501259481);
    lemma_square_multiply_step(3456381684999818973, 526929389674061, m, 1465414682306378817, 263464694837030, 11240057973501259481, 9773394411027717228);
    lemma_square_multiply_step(3273344365508825691, 1053858779348123, m, 3456381684999818973, 526929389674061, 9773394411027717228, 13496580498495811844);
    lemma_square_multiply_step(152587890625, 2107717558696246, m, 3273344365508825691, 1053858779348123, 13496580498495811844, 13496580498495811844);
    lemma_square_multiply_step(390625, 4215435117392493, m, 152587890625, 2107717558696246, 13496580498495811844, 3854214662957020343);
    lemma_square_multiply_step(625, 8430870234784987, m, 390625, 4215435117392493, 3854214662957020343, 10807434765896011965);
    lemma_square_multiply_step(25, 16861740469569974, m, 625, 8430870234784987, 10807434765896011965, 10807434765896011965);
    lemma_square_multiply_step(5, 33723480939139948, m, 25, 16861740469569974, 10807434765896011965, 10807434765896011965);
    lemma_square_multiply(5, 33723480939139948, m);
}

/// Five to the power `(p - 1) / 5594472617641` modulo `p = 2^64 - 59`.
proof fn lemma_generator_power_without_5594472617641()
    ensures
        pow_mod(5, 3297316, 18446744073709551557) == 7293648916228302286,
{
    let m: nat = 18446744073709551557;
    lemma_square_multiply_start(1679218919499661140, m);
    lemma_square_multiply_step(15743998008476443485, 1, m, 1679218919499661140, 0, 1, 15743998008476443485);
    lemma_square_multiply_step(15155659663008086131, 3, m, 15743998008476443485, 1, 15743998008476443485, 12726918291321797977);
    lemma_square_multiply_step(12697109005519127907, 6, m, 15155659663008086131, 3, 12726918291321797977, 12726918291321797977);
    lemma_square_multiply_step(889610147770376167, 12, m, 12697109005519127907, 6, 12726918291321797977, 12726918291321797977);
    lemma_square_multiply_step(15568778599148413699, 25, m, 889610147770376167, 12, 12726918291321797977, 8955803774155683645);
    lemma_square_multiply_step(8807617805419420049, 50, m, 15568778599148413699, 25, 8955803774155683645, 8955803774155683645);
    lemma_square_multiply_step(308463035671930839, 100, m, 8807617805419420049, 50, 8955803774155683645, 8955803774155683645);
    lemma_square_multiply_step(15970074089182453816, 201, m, 308463035671930839, 100, 8955803774155683645, 7191448316008458480);
    lemma_square_multiply_step(6974885541850230623, 402, m, 15970074089182453816, 201, 7191448316008458480, 7191448316008458480);
    lemma_square_multiply_step(13909410051497879145, 805, m, 6974885541850230623, 402, 7191448316008458480, 5725491349879247139);
    lemma_square_multiply_step(13588953142645802954, 1610, m, 13909410051497879145, 805, 5725491349879247139, 5725491349879247139);
    lemma_square_multiply_step(11476898102780853425, 3220, m, 13588953142645802954, 1610, 5725491349879247139, 5725491349879247139);
    lemma_square_multiply_step(3041539451533763924, 6440, m, 11476898102780853425, 3220, 5725491349879247139, 5725491349879247139);
    lemma_square_multiply_step(4077508240081661108, 12880, m, 3041539451533763924, 6440, 5725491349879247139, 5725491349879247139);
    lemma_square_multiply_step(1465414682306378817, 25760, m, 4077508240081661108, 12880, 5725491349879247139, 5725491349879247139);
    lemma_square_multiply_step(3456381684999818973, 51520, m, 1465414682306378817, 25760, 5725491349879247139, 5725491349879247139);
    lemma_square_multiply_step(3273344365508825691, 103041, m, 3456381684999818973, 51520, 5725491349879247139, 8925136574682420596);
    lemma_square_multiply_step(152587890625, 206082, m, 3273344365508825691, 103041, 8925136574682420596, 8925136574682420596);
    lemma_square_multiply_step(390625, 412164, m, 152587890625, 206082, 8925136574682420596, 8925136574682420596);
    lemma_square_multiply_step(625, 824329, m, 390625, 412164, 8925136574682420596, 7293648916228302286);
    lemma_square_multiply_step(25, 1648658, m, 625, 824329, 7293648916228302286, 7293648916228302286);
    lemma_square_multiply_step(5, 3297316, m, 25, 1648658, 7293648916228302286, 7293648916228302286);
    lemma_square_multiply(5, 3297316, m);
}

/// The factorisation of the group order `2^64 - 60`.
pub open spec fn group_order_factors() -> Seq<(nat, nat)> {
    Seq::new(
        5,
        |i: int|
            if i == 0 {
                (2nat, 2nat)
            } else if i == 1 {
                (11nat, 1nat)
            } else if i == 2 {
                (137nat, 1nat)
            } else if i == 3 {
                (547nat, 1nat)
            } else {
                (5594472617641nat, 1nat)
            },
    )
}

/// The list is that factorisation.
pub proof fn lemma_group_order_factors()
    ensures
        is_factorization(group_order_factors(), 18446744073709551556),
{
    let f0 = Seq::<(nat, nat)>::empty();
    assert(prime_power_product(f0) == 1);
    lemma_prime_2();
    assert(pow(2, 2) == 4) by {
        reveal_with_fuel(pow, 3);
    }
    lemma_list_extends(f0, 2, 2);
    let f1 = f0.push((2nat, 2nat));
    assert(prime_power_product(f1) == 4);
    lemma_prime_11();
    lemma_pow1(11);
    lemma_list_extends(f1, 11, 1);
    let f2 = f1.push((11nat, 1nat));
    assert(prime_power_product(f2) == 44);
    lemma_prime_137();
    lemma_pow1(137);
    lemma_list_extends(f2, 137, 1);
    let f3 = f2.push((137nat, 1nat));
    assert(prime_power_product(f3) == 6028);
    lemma_prime_547();
    lemma_pow1(547);
    lemma_list_extends(f3, 547, 1);
    let f4 = f3.push((547nat, 1nat));
    assert(prime_power_product(f4) == 3297316);
    lemma_largest_order_prime();
    lemma_pow1(5594472617641);
    lemma_list_extends(f4, 5594472617641, 1);
    let f5 = f4.push((5594472617641nat, 1nat));
    assert(prime_power_product(f5) == 18446744073709551556);
    assert(f5 =~= group_order_factors());
}

/// Five generates the group: its order modulo `p = 2^64 - 59` is `p - 1`.
pub proof fn lemma_generator_order()
    ensures
        has_order(5, 0xFFFF_FFFF_FFFF_FFC5, 0xFFFF_FFFF_FFFF_FFC4),
{
    let f = group_order_factors();
    lemma_group_order_factors();
    lemma_generator_power();
    lemma_generator_power_without_2();
    lemma_generator_power_without_11();
    lemma_generator_power_without_137();
    lemma_generator_power_without_547();
    lemma_generator_power_without_5594472617641();
    assert forall|i: int| 0 <= i < f.len() implies pow_mod(
        5,
        18446744073709551556nat / (#[trigger] f[i]).0,
        18446744073709551557,
    ) != 1 by {
        if i == 0 {
            assert(f[0].0 == 2);
            assert(18446744073709551556nat / 2 == 9223372036854775778);
        } else if i == 1 {
            assert(f[1].0 == 11);
            assert(18446744073709551556nat / 11 == 1676976733973595596);
        } else if i == 2 {
            assert(f[2].0 == 137);
            assert(18446744073709551556nat / 137 == 134647766961383588);
        } else if i == 3 {
            assert(f[3].0 == 547);
            assert(18446744073709551556nat / 547 == 33723480939139948);
        } else if i == 4 {
            assert(f[4].0 == 5594472617641);
            assert(18446744073709551556nat / 5594472617641 == 3297316);
        }
    }
    lemma_order_by_prime_checks(5, 18446744073709551557, 18446744073709551556, f);
}

/// The modulus of the group is prime.
pub proof fn lemma_modulus_prime()
    ensures
        is_prime(0xFFFF_FFFF_FFFF_FFC5),
{
    lemma_generator_order();
    lemma_prime_by_generator(5, 0xFFFF_FFFF_FFFF_FFC5);
}

} // verus!
