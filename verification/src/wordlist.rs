//! The built-in word list: lowercase English words in dictionary order,
//! more than enough entries for the three-word identifier form.

use vstd::prelude::*;

verus! {

use crate::text::split_on;

/// Appends every space-separated word of `chunk` to `out`.
fn push_words(out: &mut Vec<String>, chunk: &str) {
    let toks = split_on(chunk, ' ');
    let mut i: usize = 0;
    while i < toks.len()
        invariant
            0 <= i <= toks@.len(),
        decreases toks@.len() - i,
    {
        out.push(toks[i].to_owned());
        i = i + 1;
    }
}

/// The standard word list, in dictionary order.
pub fn word_list() -> Vec<String> {
    let mut words: Vec<String> = Vec::new();
    push_words(&mut words, "abacus ability able ables about abouts above aboves absent absents accent accents accept accepts access accord accords account accounts accuse accuses ace aces acid acids acorn acorns acre acres act action actions active actives actor actors acts acute acutes adapt adapts add address adds adjust adjusts admire admires admit admits adobe adobes adopt adopts adult adults advance advances advice advices");
    push_words(&mut words, "affair affairs afford affords agency agent agents agree agrees air airs aisle aisles alarm alarms album albums alert alerts alibi alibis alien aliens alike alikes alive alives alley alloy ally almond almonds aloe aloes alpha alphas altar altars amber ambers amount amounts ample amples anchor anchors angel angels anger angers angle angles animal animals ankle ankles annex answer answers ant");
    push_words(&mut words, "antenna antennas antler antlers ants anvil anvils apart aparts apex apology appeal appeals apple apples april aprils apron aprons arch archer archers arena arenas argue argues arm armor armors arms army aroma aromas arrow arrows art artist artists arts aspect aspects asset assets atlas atom atoms attic attics auburn auburns audit audits august augusts aunt aunts author authors auto autos");
    push_words(&mut words, "autumn autumns avenue avenues avid avids await awaits awake awakes award awards axis bacon bacons badge badges bagel bagels baker bakers balance balances balcony ball ballad ballads balls bamboo bamboos banana bananas band bands banjo banjos bank banks banner banners barley barn barns barrel barrels base baseline baselines bases basic basics basil basils basin basins basket baskets bass batch bath");
    push_words(&mut words, "baths baton batons battery bay beach beacon beacons bead beads beam beams bean beans bear beard beards bears beast beasts beat beats beauty beaver beavers become becomes bed beds bee beech beef beefs bees beet beets began begans begin begins being beings bell bells belly belt belts bench bend bends benefit benefits berry best bests better betters beyond beyonds bicycle");
    push_words(&mut words, "bicycles bid bids big bigs bike bikes bill bills bin bins birch bird birds birth births bishop bishops bison bisons bit bits black blacks blade blades blame blames blanket blankets blast blasts blaze blazes blend blends bless blink blinks block blocks bloom blooms blossom blossoms blouse blouses blue blues bluff bluffs board boards boat boats body boil boils bold bolds");
    push_words(&mut words, "bolt bolts bond bonds bone bones bonus book books boost boosts boot boots border borders borrow borrows boss botany both boths bottle bottles bottom bottoms bounce bounces bound bounds bow bowl bowls bows box boy bracket brackets braid braids brain brains branch brand brands brass brave braves brazil bread breads break breaks breeze breezes brick bricks bridge bridges brief briefs");
    push_words(&mut words, "bright brights brim brims bring brings brisk brisks broad broads bronze bronzes brook brooks broom brooms brother brothers brown browns brush bubble bubbles bucket buckets buckle buckles bud budget budgets buds buffalo buffalos bugle bugles build builds bulb bulbs bulk bulks bull bulls bundle bundles bunny burden burdens bureau bureaus burlap burlaps burrow burrows burst bursts bus bush butler butlers");
    push_words(&mut words, "butter butters button buttons buyer buyers cabbage cabbages cabin cabins cable cables cactus cadet cadets cafe cafes cage cages cake cakes calf calfs calm calms camel camels camera cameras camp camps canal canals candle candles candy cane canes canoe canoes canon canons canvas canyon canyons cape capes capital capitals captain captains car caramel caramels carbon carbons card cards care cares");
    push_words(&mut words, "cargo cargos carol carols carpet carpets carrot carrots carry cars cart carts carve carves case cases cash cast castle castles casts casual casuals cat catalog catalogs catch cater caters cats cattle cattles cause causes cave caves cedar cedars ceiling ceilings celery cell cellar cellars cells cement cements census cent center centers cents cereal cereals chain chains chair chairs chalk chalks");
    push_words(&mut words, "chamber chambers chance chances change changes chant chants chapel chapels chapter chapters charge charges chariot chariots charm charms chart charts chase chases chat chats cheap cheaps check checks cheek cheeks cheer cheers cheese cheeses chef chefs cherry chess chest chests chew chews chicken chickens chief chiefs child childs chill chills chime chimes chin china chinas chins chip chips choice choices");
    push_words(&mut words, "choir choirs choose chooses chorus chrome chromes chunk chunks church cider ciders cinema cinemas circle circles circus citizen citizens citrus city civic civics civil civils claim claims clam clamp clamps clams clap claps clarify class clause clauses claw claws clay clean cleans clear clears clerk clerks clever clevers click clicks client clients cliff cliffs climate climates climb climbs clinic clinics");
    push_words(&mut words, "clip clips cloak cloaks clock clocks clone clones close closes closet closets cloth cloths cloud clouds clover clovers club clubs clue clues cluster clusters coach coal coals coast coasts coat coats cobalt cobalts cocoa cocoas coconut coconuts code codes coffee coffees coil coils coin coins cold colds collar collars college colleges colony color colors column columns comet comets comfort comforts");
    push_words(&mut words, "comic comics command commands comment comments common commons compass concert concerts condor condors cone cones confirm confirms consent consents consider considers consult consults contact contacts contest contests context contexts convoy cook cooks cool cools copper coppers copy coral corals cord cords core cores cork corks corn corner corners corns correct corrects cosmic cosmics cost costs costume costumes cottage cottages cotton");
    push_words(&mut words, "cottons couch could coulds count counts county couple couples courage courages course courses court courts cousin cousins cover covers cow cowboy cows crab crabs cradle cradles craft crafts crane cranes crate crater craters crates crayon crayons cream creams create creates credit credits creek creeks crew crews cricket crickets crimson crimsons crisp crisps critic critics crop crops cross crowd crowds crown");
    push_words(&mut words, "crowns cruise cruises crumb crumbs crystal crystals cube cubes cubic cubics culture cultures cup cups curb curbs curious curl curls current currents curtain curtains curve curves cushion cushions custom customs cycle cycles daily dairy daisy dance dances danger dangers dapper dappers daring darings dark darks dart darts dash data datas date dates dawn dawns day deal deals debate debates debut");
    push_words(&mut words, "debuts decade decades decent decents decide decides deck decks declare declares decor decors decoy deed deeds deep deeps deer deers defend defends define defines degree degrees delay deliver delivers delta deltas demand demands denim denims dense denses deny depart departs depend depends deploy deposit deposits depth depths deputy derive derives describe describes desert deserts design designs desk desks dessert desserts");
    push_words(&mut words, "detail details detect detects device devices devote devotes dew dews diagram diagrams dial dials diamond diamonds diary dice dices diesel diesels diet diets differ differs digit digits dill dills dinner dinners dinosaur dinosaurs diploma diplomas direct directs dish dismiss display ditch dive dives divide divides dock docks doctor doctors dog dogs dollar dollars dolphin dolphins domain domains donate donates donkey");
    push_words(&mut words, "donor donors door doors dose doses double doubles dough doughs dove doves down downs dozen dozens draft drafts dragon dragons drain drains drama dramas draw draws dream dreams dress drift drifts drill drills drink drinks drive drives drop drops drum drums dry duck ducks due dues duet duets dune dunes durable durables dust dusts duty dwell dwells eager eagers eagle");
    push_words(&mut words, "eagles ear early earn earns ears earth earths east easts easy echo echos eclipse eclipses ecology edge edges edit editor editors edits effect effects effort efforts egg eggs eight eights either eithers elbow elbows elder elders electric electrics elegant elegants element elements elephant elephants elevator elevators elite elites elk elks elm elms else elses ember embers emerald emeralds emerge emerges");
    push_words(&mut words, "empire empires employ empty enable enables enact enacts end endless endorse endorses ends enemy energy enforce enforces engine engines enjoy enlist enlists enough enoughs enrich enroll enrolls ensure ensures enter enters entire entires entry envelope envelopes epic epics equal equals equip equips era eras erase erases erode erodes errand errands escape escapes essay estate estates ethics evening evenings event events");
    push_words(&mut words, "every exact exacts exam example examples exams exceed exceeds excel excels except excepts excess exchange exchanges excite excites excuse excuses exhaust exhausts exhibit exhibits exile exiles exist exists exit exits expand expands expect expects expert experts explain explains explore explores export exports express extend extends extra extras eye eyes fable fables fabric fabrics face faces fact factor factors facts fairy");
    push_words(&mut words, "faith faiths falcon falcons fall falls family famous fancy farm farms fashion fashions fast fasts father fathers fault faults favor favors feast feasts feather feathers federal federals fee feed feeds feel feels fees fellow fellows felt felts female females fence fences fern ferns ferry festival festivals fetch fever fevers few fews fiber fibers fiction fictions field fields fig figs figure");
    push_words(&mut words, "figures file files fill fills film films filter filters final finals finch find finds fine fines finger fingers finish fire fires firm firms first firsts fiscal fiscals fish fit fitness fits five fives fix flag flags flame flames flash flavor flavors fleet fleets flesh flight flights flint flints flip flips float floats flock flocks flood floods floor floors flour flours");
    push_words(&mut words, "flow flower flowers flows fluid fluids flute flutes fly foam foams focus fog fogs foil foils fold folds folk folks follow follows fond fonds font fonts food foods foot foots force forces forest forests forge forges forget forgets fork forks form formal formals forms fortune fortunes forum forums fossil fossils foster fosters found founds fountain fountains four fours fox frame");
    push_words(&mut words, "frames free frees fresh friend friends frog frogs front fronts frost frosts fruit fruits fuel fuels full fulls fun fund funds funny funs fur furnace furnaces furs future futures gadget gadgets gain gains galaxy gallery gallon gallons game games gamma gammas garage garages garden gardens garlic garlics garment garments gate gates gather gathers gauge gauges gave gaves gaze gazes gear");
    push_words(&mut words, "gears gecko geckos gem gems gender genders general generals gentle gentles genuine genuines ghost ghosts giant giants gift gifts giggle giggles ginger gingers giraffe giraffes girl girls give gives glacier glaciers glad glads glance glances glass glide glides globe globes glory glove gloves glow glows glue glues goal goals goat goats gold golds golf golfs good goods goose gooses gorilla");
    push_words(&mut words, "gorillas gossip gossips gourd gourds govern governs gown gowns grab grabs grace graces grade grades grain grains grand grands granite granites grant grants grape grapes graph graphs grasp grasps grass gravel gravels gravity gray great greats green greens greet greets grid grids grief griefs grill grills grin grind grinds grins grip grips grit grits grocery ground grounds group groups grove");
    push_words(&mut words, "groves grow grows growth growths guard guards guess guest guests guide guides guitar guitars gulf gulfs guru gurus gust gusts gutter gutters gym gyms habit habits hail hails hair hairs half halfs hall halls hamlet hamlets hammer hammers hamper hampers hand handle handles hands hanger hangers happy harbor harbors hard hards harm harms harp harps harvest harvests hash hat hatch");
    push_words(&mut words, "hats haven havens hawk hawks hazard hazards hazel hazels head heads health healths heart hearth hearths hearts heat heats heavy hedge hedges heel heels height heights helmet helmets help helps hemp hemps herald heralds herb herbs herd herds hero heron herons heros hidden hiddens high highs hiking hikings hill hills hint hints hip hips hire hires history hobby hockey hold");
    push_words(&mut words, "holds hollow hollows holly home homes honest honests honey hood hoods hook hooks hope hopes horizon horizons horn horns horse horses hose hoses host hosts hotel hotels hour hours house houses hover hovers hub hubs hue hues human humans humble humbles humor humors hunt hunts hurdle hurdles hurry hut huts hybrid hybrids hymn hymns ice ices icon icons idea ideal");
    push_words(&mut words, "ideals ideas idle idles idol idols igloo igloos ignite ignites image images imagine imagines impact impacts import imports impose imposes improve improves impulse impulses inch income incomes indeed indeeds index indigo indigos indoor indoors infant infants inform informs inherit inherits initial initials injury inland inlands inner inners input inputs inquiry insect insects inside insides insight insights inspect inspects inspire inspires");
    push_words(&mut words, "install installs intact intacts intend intends interest interests invest invests invite invites iron irons island islands issue issues item items ivory ivy jacket jackets jade jades jaguar jaguars jar jars jasmine jasmines jazz jeans jelly jewel jewels job jobs jockey join joins joint joints joke jokes jolly journal journals journey joy judge judges juice juices july jumbo jumbos jump jumps");
    push_words(&mut words, "june junes jungle jungles junior juniors jury just justice justices justs kangaroo kangaroos karate karates kayak kayaks keen keens keep keeps kennel kennels kernel kernels kettle kettles key kick kicks kid kidney kids kind kinds king kings kiosk kiosks kit kitchen kitchens kite kites kits kitten kittens kiwi kiwis knee knees knife knifes knight knights knit knits knob knobs knock");
    push_words(&mut words, "knocks knot knots know knows koala koalas label labels labor labors lace laces ladder ladders lady lagoon lagoons lake lakes lamb lambs lamp lamps land lands lane lanes language languages lantern lanterns lap laps laptop laptops large larges laser lasers last lasts latch late lates latter latters laugh laughs launch laundry lava lavas law lawn lawns laws lawyer lawyers layer");
    push_words(&mut words, "layers lazy lead leads leaf leafs league leagues lean leans learn learns lease leases least leasts leather leathers leave leaves ledge ledges left lefts legacy legal legals legend legends lemon lemons lend lends length lengths lens lentil lentils leopard leopards lesson lessons letter letters lettuce lettuces level levels lever levers liberty library license licenses life lifes lift lifts light lights");
    push_words(&mut words, "like likes lily limb limbs lime limes limit limits line linen linens lines link links lion lions liquid liquids list listen listens lists litter litters little littles live liver livers lives lizard lizards llama llamas load loads loaf loafs loan loans lobby lobster lobsters local locals lock locks lodge lodges loft lofts log logic logics logs long longs look looks");
    push_words(&mut words, "loop loops loose looses lord lords lotus loud louds lounge lounges love loves low lows loyal loyals lucky lumber lumbers lunar lunars lunch lung lungs lyric lyrics machine machines macro macros magic magics magnet magnets maid maids mail mails main mains major majors make makes male males mall malls man mango mangos manner manners mantle mantles many map maple maples");
    push_words(&mut words, "maps marble marbles march margin margins marine marines market markets marsh mask masks mason masons mass master masters match matter matters mature matures maze mazes meadow meadows meal meals mean means measure measures meat meats medal medals media medias medium mediums meet meets mellow mellows melody melon melons member members memory mention mentions mentor mentors menu menus mercy merge merges");
    push_words(&mut words, "merit merits merry mesh message messages metal metals meter meters method methods metro metros middle middles might mights mild milds mile miles milk milks mill mills mind minds mineral minerals mingle mingles mini minis mint mints minute minutes mirror mirrors miss mission missions mist mists mix mixture mixtures mobile mobiles model models modern moderns modest modests module modules moment moments");
    push_words(&mut words, "monitor monitors monkey month months moon moons moral morals morning mornings mosaic mosaics moss most mosts motel motels mother mothers motion motions motor motors motto mottos mound mounds mount mounts mouse mouses mouth mouths move moves movie movies mud muds muffin muffins mule mules multiply mural murals muscle muscles museum museums music musics mustard mustards mutual mutuals myth myths name");
    push_words(&mut words, "names napkin napkins narrow narrows nation nations native natives nature natures navy near nears neat neats nectar nectars need needle needles needs neon neons nephew nephews nerve nerves nest nests net nets network networks neutral neutrals never nevers new news next nexts nice nices nickel nickels niece nieces night nights nimble nimbles nine nines noble nobles noise noises nomad nomads");
    push_words(&mut words, "noon noons normal normals north norths nose noses note notes notice notices noun nouns novel novels number numbers nurse nurses nut nuts nylon nylons oak oaks oasis oat oats object objects oblige obliges oboe oboes observe observes obtain obtains obvious ocean oceans october octobers odd odds offer offers office offices often oftens oil oils okay old olds olive olives omega");
    push_words(&mut words, "omegas once onces onion onions only onset onsets open opens opera operas opinion opinions oppose opposes optic optics option options orange oranges orbit orbits orchard orchards order orders ordinary organ organs orient orients origin origins ostrich other others otter otters ounce ounces outcome outcomes outdoor outdoors outer outers output outputs oval ovals oven ovens over overs owl owls owner owners");
    push_words(&mut words, "oxygen oxygens oyster oysters pace paces pack packet packets packs paddle paddles page pages paint paints pair pairs palace palaces palm palms panda pandas panel panels panic panics panther panthers paper papers parade parades parcel parcels pardon pardons parent parents park parks parlor parlors parrot parrots parsley part parts party pass past pasta pastas paste pastel pastels pastes pastor pastors");
    push_words(&mut words, "pasts pasture pastures patch path paths patient patients patio patios patrol patrols pattern patterns pause pauses pave paves payment payments peace peaces peach peak peaks peanut peanuts pear pearl pearls pears pebble pebbles pecan pecans pedal pedals peel peels pelican pelicans pen penalty pencil pencils penguin penguins penny pens people peoples pepper peppers percent percents perch perfect perfects period periods");
    push_words(&mut words, "permit permits person persons pet petal petals pets phase phases phone phones photo photos phrase phrases physics piano pianos pick picks picnic picnics picture pictures piece pieces pier piers pigeon pigeons pile piles pillar pillars pillow pillows pilot pilots pine pines pink pinks pint pints pioneer pioneers pipe pipes pistol pistols pitch pivot pivots pixel pixels pizza pizzas place places");
    push_words(&mut words, "plain plains plan planet planets plank planks plans plant plants plasma plasmas plate plates play plaza plazas pledge pledges plenty plot plots plow plows pluck plucks plug plugs plum plums plunge plunges pocket pockets pod pods poem poems poet poets point points polar polars pole poles police polices policy polish polite polites pond ponds pony pool pools poppy popular populars");
    push_words(&mut words, "porch port portion portions portrait portraits ports pose poses post poster posters posts pot potato potatos pots pottery pouch pound pounds powder powders power powers praise praises prefer prefers premium premiums prepare prepares present presents press pretty price prices pride prides primary prime primes print prints prior priors prism prisms prison prisons private privates prize prizes probe probes problem problems");
    push_words(&mut words, "process produce produces profit profits program programs project projects promise promises prompt prompts proof proofs proper propers prosper prospers protect protects proud prouds prove proves provide provides public publics pudding puddings pulse pulses pump pumpkin pumpkins pumps punch pupil pupils puppy pure pures purple purples purpose purposes purse purses pursue pursues push put puts puzzle puzzles python pythons quail quails");
    push_words(&mut words, "quality quarter quarters queen queens query quest question questions quests quick quicks quiet quiets quill quills quilt quilts quit quits quota quotas quote quotes rabbit rabbits raccoon raccoons race races rack racks radar radars radio radios radish raft rafts rail rails rain rains raise raises raisin raisins rally ramp ramps ranch random randoms range ranges rank ranks rapid rapids rare");
    push_words(&mut words, "rares rather rathers rating ratings ratio ratios raven ravens raw raws reach read reads ready real reals reason reasons rebel rebels rebuild rebuilds recall recalls receive receives recent recents recipe recipes record records recruit recruits red reds reduce reduces reed reeds reef reefs refer refers reform reforms refuse refuses region regions regular regulars relax relay release releases relief reliefs rely");
    push_words(&mut words, "remain remains remark remarks remedy remind reminds remove removes render renders renew renews rent rents repair repairs repeat repeats replace replaces reply report reports rescue rescues research reserve reserves reside resides resist resists resource resources respect respects respond responds rest rests result results resume resumes retail retails retain retains retire retires return returns reunion reunions reveal reveals review reviews reward");
    push_words(&mut words, "rewards rhythm rhythms ribbon ribbons rice rices rich ride rides ridge ridges rifle rifles right rights rigid rigids ring rings rinse rinses ripple ripples rise rises risk risks rival rivals river rivers road roads roast roasts robe robes robin robins robot robots robust robusts rock rocket rockets rocks rodent rodents role roles roll rolls roof roofs rookie rookies room rooms");
    push_words(&mut words, "rooster roosters root roots rope ropes rose roses rotate rotates rough roughs round rounds route router routers routes routine routines row rows royal royals ruby rudder rudders rug rugby rugs rule rules rumble rumbles run runs rural rurals rust rustic rustics rusts sable sables saddle saddles safari safaris safe safes sage sages sail sails saint saints salad salads salmon salmons");
    push_words(&mut words, "salon salons salt salts salute salutes same sames sample samples sand sandal sandals sands satin satins sauce sauces sauna saunas save saves saw saws scale scales scan scans scarf scarfs scene scenes scenic scenics scheme schemes scholar scholars school schools science sciences scissors scoop scoops scope scopes score scores scout scouts scrap scraps screen screens script scripts scroll scrolls sea");
    push_words(&mut words, "seal seals search seas season seasons seat seats second seconds secret secrets sector sectors secure secures see seed seeds seek seeks sees segment segments seldom seldoms select selects self selfs sell sells seminar seminars senior seniors sense senses sentry sequel sequels series serve serves session sessions set sets settle settles seven sevens shade shades shadow shadows shaft shafts shallow shallows");
    push_words(&mut words, "shape shapes share shares shark sharks sharp sharps shed sheds sheep sheeps sheet sheets shelf shelfs shell shells shelter shelters shield shields shift shifts shine shines ship ships shirt shirts shock shocks shoe shoes shop shops shore shores short shorts shout shouts shovel shovels show shows shrimp shrimps shrine shrines shrub shrubs shuttle shuttles side sides siege sieges sign signal");
    push_words(&mut words, "signals signs silent silents silk silks silly silver silvers similar similars simple simples since sinces sing single singles sings sink sinks sir siren sirens sirs sister sisters sit site sites sits six size sizes sketch ski skill skills skin skins skirt skirts skis sky slab slabs slate slates sled sleds sleek sleeks sleep sleeps sleeve sleeves slice slices slide slides");
    push_words(&mut words, "slight slights slim slims slope slopes slot slots slow slows small smalls smart smarts smile smiles smoke smokes smooth smooths snack snacks snail snails snake snakes sneak sneaks snow snows soap soaps soccer soccers social socials sock socks soda sodas sofa sofas soft softs soil soils solar solars soldier soldiers sole soles solid solids solo solos solve solves some somes");
    push_words(&mut words, "sonar sonars song songs sonic sonics soon soons sorry sort sorts soul souls sound sounds soup soups source sources south souths soybean soybeans space spaces spare spares spark sparks sparrow sparrows spatial spatials speak speaks special specials speech speed speeds spell spells spend spends sphere spheres spice spices spider spiders spike spikes spin spinach spins spirit spirits split splits sponge");
    push_words(&mut words, "sponges spoon spoons sport sports spot spots spray spread spreads spring springs sprout sprouts spruce spruces spur spurs squad squads square squares squash squirrel squirrels stable stables stack stacks stadium stadiums staff staffs stage stages stair stairs stake stakes stamp stamps stand stands staple staples star starch stars start starts state states static statics station stations statue statues status stay");
    push_words(&mut words, "steady steak steaks steam steams steel steels steep steeps steer steers stem stems step steps stereo stereos stew stews stick sticks still stills sting stings stock stocks stomach stone stones stool stools stop stops store stores storm storms story stove stoves straight straights strand strands strategy straw straws stream streams street streets stress stretch strike strikes string strings stripe stripes");
    push_words(&mut words, "stroll strolls strong strongs studio studios study stuff stuffs stump stumps style styles subject subjects submit submits subtle subtles suburb suburbs subway sugar sugars suit suits sultan sultans summer summers summit summits sun sunny suns sunset sunsets super supers supply support supports supreme supremes sure sures surface surfaces surge surges survey sushi sushis swamp swamps swan swans swap swaps sweet");
    push_words(&mut words, "sweets swift swifts swim swims swing swings switch sword swords symbol symbols system systems table tables tactic tactics tail tailor tailors tails take takes talent talents talk talks tall talls tank tanks tap tape tapes taps target targets task tasks taste tastes tattoo tattoos taxi taxis teach team teams tear tears tech temple temples tempo tempos ten tenant tenants tennis");
    push_words(&mut words, "tens tent tents term terms test tests text texts texture textures thank thanks theater theaters theme themes theory thing things think thinks thorn thorns thread threads three threes thrive thrives throne thrones thumb thumbs thunder thunders ticket tickets tidal tidals tide tides tiger tigers tile tiles timber timbers time times tin tins tiny tip tips tissue tissues title titles toast");
    push_words(&mut words, "toasts today toe toes token tokens tomato tomatos tone tones tongue tongues tonic tonics tool tools tooth tooths top topic topics tops torch total totals touch tour tours toward towards tower towers town towns trace traces track tracks tractor tractors trade trades traffic traffics trail trails train trains trait traits transit transits travel travels tray treat treats tree trees trek");
    push_words(&mut words, "treks trend trends trial trials tribe tribes tribute tributes trick tricks trim trims trio trios trip trips triumph triumphs troop troops trophy trout trouts truck trucks true trues trumpet trumpets trunk trunks trust trusts truth truths try tube tubes tulip tulips tumble tumbles tuna tunas tundra tundras tunnel tunnels turbine turbines turf turfs turkey turn turns turtle turtles tutor tutors");
    push_words(&mut words, "tweed tweeds twelve twelves twenty twice twices twig twigs twin twins twist twists two twos type types umbrella umbrellas uncle uncles under unders unfold unfolds uniform uniforms union unions unique uniques unit units unity universe universes update updates upgrade upgrades uphold upholds upon upons upper uppers upright uprights upset upsets urban urbans urge urges usage usages use useful usefuls uses");
    push_words(&mut words, "usher ushers usual usuals utensil utensils utility vacant vacants valley value values valve valves van vanilla vanillas vans vapor vapors vast vasts vault vaults vector vectors veil veils vein veins velvet velvets vendor vendors venture ventures venue venues verse verses version versions very vessel vessels veteran veterans via vias video videos view views vigor vigors village villages vine vines vintage");
    push_words(&mut words, "vintages vinyl vinyls violet violets violin violins virtue virtues visible visibles vision visions visit visits visual visuals vital vitals vivid vivids vocal vocals voice voices volcano volcanos volume volumes vote votes voyage voyages wafer wafers wagon wagons waist waists wait waits walk walks wall walls walnut walnuts walrus wander wanders want wants war warden wardens warm warms warrior warriors wash");
    push_words(&mut words, "wasp wasps waste wastes watch water waters wave waves wax way wealth wealths weapon weapons weather weathers weave weaves web webs wedge wedges week weeks weight weights welcome welcomes well wells west wests whale whales wheat wheats wheel wheels when whens where wheres which while whiles whisper whispers white whites whole wholes wide wides widget widgets width widths wild wilds");
    push_words(&mut words, "willow willows win wind window windows winds wine wines wing wings winner winners wins winter winters wire wires wisdom wisdoms wise wises wish witness wizard wizards wolf wolfs wonder wonders wood woods wool wools word words work works world worlds worth worths wound wounds woven wovens wrap wraps wreath wreaths wrench wrist wrists write writes yacht yachts yard yards yarn");
    push_words(&mut words, "yarns year years yeast yeasts yellow yellows yield yields yogurt yogurts young youngs youth youths zebra zebras zenith zeniths zero zeros zest zests zigzag zigzags zinc zincs zone zones zoo zoos");
    words
}

} // verus!
